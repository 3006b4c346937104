//! What holds of every handling of a packet: one flush at the end, writes on
//! change only, no failure where the table's pins are configured, and no
//! write for a message that is not routed or not understood.

use crate::level::Level;
use crate::osc_handler::{
    coerced, content_commands, message_commands, packet_commands, plan, run, set_commands, Command,
    Effect, Run, Warning,
};
use crate::packet::{OscMessage, OscPacket};
use crate::piblaster::{set_outcome, set_values, GpioPin};
use crate::routing::{index_of, lemma_index_of, lookup, routed, Entries};
use vstd::prelude::*;

verus! {

/// Handling one list of commands after another is handling them as one list:
/// the second is reached only if the first succeeds, and starts from the
/// levels that the first leaves.
pub proof fn lemma_run_concat(values: Map<GpioPin, Level>, first: Seq<Command>, second: Seq<Command>)
    ensures
        run(values, first + second) == (if run(values, first).result is Err {
            run(values, first)
        } else {
            let rest = run(run(values, first).values, second);
            Run { effects: run(values, first).effects + rest.effects, ..rest }
        }),
    decreases first.len(),
{
    if first.len() > 0 {
        let whole = first + second;
        assert(whole.skip(1) =~= first.skip(1) + second);
        match first[0] {
            Command::Warn(warning) => {
                lemma_run_concat(values, first.skip(1), second);
                let head = run(values, first.skip(1));
                assert((seq![Effect::Warn(warning)] + head.effects) + run(
                    head.values,
                    second,
                ).effects =~= seq![Effect::Warn(warning)] + (head.effects + run(
                    head.values,
                    second,
                ).effects));
            },
            Command::Flush => {
                lemma_run_concat(values, first.skip(1), second);
                let head = run(values, first.skip(1));
                assert((seq![Effect::Flush] + head.effects) + run(head.values, second).effects
                    =~= seq![Effect::Flush] + (head.effects + run(head.values, second).effects));
            },
            Command::SetPin(pin, value) => {
                match set_outcome(values, pin, value) {
                    Err(_) => {},
                    Ok(None) => {
                        lemma_run_concat(values, first.skip(1), second);
                    },
                    Ok(Some(write)) => {
                        let next = set_values(values, pin, value);
                        lemma_run_concat(next, first.skip(1), second);
                        let head = run(next, first.skip(1));
                        assert((seq![Effect::Write(write)] + head.effects) + run(
                            head.values,
                            second,
                        ).effects =~= seq![Effect::Write(write)] + (head.effects + run(
                            head.values,
                            second,
                        ).effects));
                    },
                }
            },
        }
    }
}

/// Whether a list of commands holds no flush.
pub open spec fn flush_free(commands: Seq<Command>) -> bool {
    forall|i: int| 0 <= i < commands.len() ==> !((#[trigger] commands[i]) is Flush)
}

/// Whether every pin that a list of commands sets stands in the table.
pub open spec fn within_table(entries: Entries, commands: Seq<Command>) -> bool {
    forall|i: int|
        0 <= i < commands.len() && (#[trigger] commands[i]) is SetPin ==> routed(
            entries,
            commands[i]->SetPin_0,
        )
}

/// The commands of a message hold no flush and set only pins of the table.
pub proof fn lemma_message_commands(entries: Entries, msg: OscMessage)
    ensures
        flush_free(message_commands(entries, msg)),
        within_table(entries, message_commands(entries, msg)),
{
    let commands = message_commands(entries, msg);
    if msg.args@.len() > 0 && coerced(msg.args@[0]) is Some && lookup(entries, msg.addr@) is Some {
        let pins = lookup(entries, msg.addr@).unwrap();
        let value = coerced(msg.args@[0]).unwrap();
        let at = index_of(entries, msg.addr@);
        lemma_index_of(entries, msg.addr@);
        assert forall|i: int| 0 <= i < commands.len() && (#[trigger] commands[i]) is SetPin implies
            routed(entries, commands[i]->SetPin_0) by {
            let p = if msg.args@.len() != 1 {
                i - 1
            } else {
                i
            };
            assert(commands[i] == set_commands(pins, value)[p]);
            assert(entries[at].1[p] == commands[i]->SetPin_0);
        }
    }
}

/// The commands of a packet hold no flush and set only pins of the table.
pub proof fn lemma_packet_commands(entries: Entries, packet: OscPacket)
    ensures
        flush_free(packet_commands(entries, packet)),
        within_table(entries, packet_commands(entries, packet)),
    decreases packet, 0nat,
{
    match packet {
        OscPacket::Message(msg) => {
            lemma_message_commands(entries, msg);
        },
        OscPacket::Bundle(bundle) => {
            lemma_content_commands(entries, bundle.content@, bundle.content@.len());
        },
    }
}

/// The commands of a bundle's packets hold no flush and set only pins of the
/// table.
pub proof fn lemma_content_commands(entries: Entries, content: Seq<OscPacket>, upto: nat)
    ensures
        flush_free(content_commands(entries, content, upto)),
        within_table(entries, content_commands(entries, content, upto)),
    decreases content, upto,
{
    if !(upto == 0 || upto > content.len()) {
        lemma_content_commands(entries, content, (upto - 1) as nat);
        lemma_packet_commands(entries, content[upto - 1]);
    }
}

/// Whether a list of effects holds no flush.
pub open spec fn no_flush(effects: Seq<Effect>) -> bool {
    forall|i: int| 0 <= i < effects.len() ==> !((#[trigger] effects[i]) is Flush)
}

/// Whether a list of effects holds no write.
pub open spec fn no_write(effects: Seq<Effect>) -> bool {
    forall|i: int| 0 <= i < effects.len() ==> !((#[trigger] effects[i]) is Write)
}

/// Commands without a flush have effects without a flush.
pub proof fn lemma_run_flush_free(values: Map<GpioPin, Level>, commands: Seq<Command>)
    requires
        flush_free(commands),
    ensures
        no_flush(run(values, commands).effects),
    decreases commands.len(),
{
    if commands.len() > 0 {
        let rest = commands.skip(1);
        assert forall|i: int| 0 <= i < rest.len() implies !((#[trigger] rest[i]) is Flush) by {
            assert(rest[i] == commands[i + 1]);
        }
        match commands[0] {
            Command::Warn(_) => {
                lemma_run_flush_free(values, rest);
            },
            Command::Flush => {},
            Command::SetPin(pin, value) => {
                lemma_run_flush_free(values, rest);
                lemma_run_flush_free(set_values(values, pin, value), rest);
            },
        }
    }
}

/// A packet is flushed once, after all its other effects, and only if all
/// its commands were worked through: the handling of a packet is the handling
/// of its commands, with one flush behind them where they succeed, and no
/// other flush anywhere.
pub proof fn lemma_one_flush_at_the_end(
    entries: Entries,
    values: Map<GpioPin, Level>,
    packet: OscPacket,
)
    ensures
        ({
            let whole = run(values, plan(entries, packet));
            let body = run(values, packet_commands(entries, packet));
            &&& whole.result == body.result
            &&& whole.values == body.values
            &&& no_flush(body.effects)
            &&& body.result is Ok ==> whole.effects == body.effects.push(Effect::Flush)
            &&& body.result is Err ==> whole.effects == body.effects
        }),
{
    let commands = packet_commands(entries, packet);
    let body = run(values, commands);
    lemma_packet_commands(entries, packet);
    lemma_run_flush_free(values, commands);
    lemma_run_concat(values, commands, seq![Command::Flush]);
    assert(plan(entries, packet) =~= commands + seq![Command::Flush]);
    reveal_with_fuel(run, 2);
    if body.result is Ok {
        assert(body.result->Ok_0 == ());
    }
}

/// Handling never adds or removes a pin: the configured pins at the end are
/// those at the start, whether or not the handling succeeds.
pub proof fn lemma_run_keeps_pins(values: Map<GpioPin, Level>, commands: Seq<Command>)
    ensures
        run(values, commands).values.dom() == values.dom(),
    decreases commands.len(),
{
    if commands.len() > 0 {
        let rest = commands.skip(1);
        lemma_run_keeps_pins(values, rest);
        match commands[0] {
            Command::SetPin(pin, value) => {
                let next = set_values(values, pin, value);
                lemma_run_keeps_pins(next, rest);
            },
            _ => {},
        }
    }
}

/// Commands that set only configured pins are all worked through.
pub proof fn lemma_run_succeeds(values: Map<GpioPin, Level>, commands: Seq<Command>)
    requires
        forall|i: int|
            0 <= i < commands.len() && (#[trigger] commands[i]) is SetPin ==> values.contains_key(
                commands[i]->SetPin_0,
            ),
    ensures
        run(values, commands).result is Ok,
    decreases commands.len(),
{
    if commands.len() > 0 {
        let rest = commands.skip(1);
        assert forall|i: int| 0 <= i < rest.len() && (#[trigger] rest[i]) is SetPin implies
            values.contains_key(rest[i]->SetPin_0) by {
            assert(rest[i] == commands[i + 1]);
        }
        match commands[0] {
            Command::SetPin(pin, value) => {
                let next = set_values(values, pin, value);
                lemma_run_succeeds(values, rest);
                lemma_run_succeeds(next, rest);
            },
            _ => {
                lemma_run_succeeds(values, rest);
            },
        }
    }
}

/// Where every pin of the routing table is configured, no packet fails:
/// each is worked through to its flush, and the configured pins stay the
/// same, so that the next packet finds them configured too.
pub proof fn lemma_configured_table_never_fails(
    entries: Entries,
    values: Map<GpioPin, Level>,
    packet: OscPacket,
)
    requires
        forall|pin: GpioPin| routed(entries, pin) ==> values.contains_key(pin),
    ensures
        run(values, plan(entries, packet)).result is Ok,
        run(values, plan(entries, packet)).values.dom() == values.dom(),
{
    let commands = packet_commands(entries, packet);
    lemma_packet_commands(entries, packet);
    lemma_run_succeeds(values, commands);
    lemma_one_flush_at_the_end(entries, values, packet);
    lemma_run_keeps_pins(values, plan(entries, packet));
}

/// The warnings of a message: one for an argument count other than one.
pub open spec fn count_warnings(msg: OscMessage) -> Seq<Effect> {
    if msg.args@.len() != 1 {
        seq![Effect::Warn(Warning::ArgumentCount { found: msg.args@.len() as usize })]
    } else {
        Seq::empty()
    }
}

/// A message whose address the table does not know is handled with success
/// and causes no write: no level changes, and the effects are at most
/// warnings, then the flush.
pub proof fn lemma_unrouted_message(entries: Entries, values: Map<GpioPin, Level>, msg: OscMessage)
    requires
        lookup(entries, msg.addr@) is None,
    ensures
        run(values, plan(entries, OscPacket::Message(msg))).result is Ok,
        run(values, plan(entries, OscPacket::Message(msg))).values == values,
        no_write(run(values, plan(entries, OscPacket::Message(msg))).effects),
{
    reveal_with_fuel(run, 4);
}

/// A message whose first argument is no number is handled with success,
/// changes no level and causes no write, and the warning is among its
/// effects: they are the warning for the argument count, if it is not one,
/// the warning for the type, and the flush.
pub proof fn lemma_unsupported_argument(
    entries: Entries,
    values: Map<GpioPin, Level>,
    msg: OscMessage,
)
    requires
        msg.args@.len() > 0,
        coerced(msg.args@[0]) is None,
    ensures
        run(values, plan(entries, OscPacket::Message(msg))).result is Ok,
        run(values, plan(entries, OscPacket::Message(msg))).values == values,
        run(values, plan(entries, OscPacket::Message(msg))).effects == count_warnings(msg).push(
            Effect::Warn(Warning::UnsupportedType),
        ).push(Effect::Flush),
        no_write(run(values, plan(entries, OscPacket::Message(msg))).effects),
{
    reveal_with_fuel(run, 4);
}

/// The stored levels after the writes among `effects` have been applied to
/// `values`, in order.
pub open spec fn replay(values: Map<GpioPin, Level>, effects: Seq<Effect>) -> Map<GpioPin, Level>
    decreases effects.len(),
{
    if effects.len() == 0 {
        values
    } else {
        match effects[0] {
            Effect::Write(write) => replay(values.insert(write.pin, write.value), effects.skip(1)),
            _ => replay(values, effects.skip(1)),
        }
    }
}

/// Whether every write among `effects` is to a configured pin and differs, as
/// a number, from the level that the pin has when the write comes: the one
/// from `values`, or the one that the last write before it gave the pin.
pub open spec fn writes_on_change(values: Map<GpioPin, Level>, effects: Seq<Effect>) -> bool
    decreases effects.len(),
{
    if effects.len() == 0 {
        true
    } else {
        match effects[0] {
            Effect::Write(write) => {
                &&& values.contains_key(write.pin)
                &&& !write.value.same_number(values[write.pin])
                &&& writes_on_change(values.insert(write.pin, write.value), effects.skip(1))
            },
            _ => writes_on_change(values, effects.skip(1)),
        }
    }
}

/// Writes happen on change only, and the stored levels are what was written:
/// no write repeats the level that its pin already has, and at the end of a
/// handling each pin's stored level is the one written to it last.
pub proof fn lemma_writes_on_change(values: Map<GpioPin, Level>, commands: Seq<Command>)
    ensures
        writes_on_change(values, run(values, commands).effects),
        run(values, commands).values == replay(values, run(values, commands).effects),
    decreases commands.len(),
{
    if commands.len() > 0 {
        let rest = commands.skip(1);
        match commands[0] {
            Command::Warn(warning) => {
                lemma_writes_on_change(values, rest);
                let effects = seq![Effect::Warn(warning)] + run(values, rest).effects;
                assert(effects.skip(1) =~= run(values, rest).effects);
            },
            Command::Flush => {
                lemma_writes_on_change(values, rest);
                let effects = seq![Effect::Flush] + run(values, rest).effects;
                assert(effects.skip(1) =~= run(values, rest).effects);
            },
            Command::SetPin(pin, value) => {
                match set_outcome(values, pin, value) {
                    Err(_) => {},
                    Ok(None) => {
                        lemma_writes_on_change(values, rest);
                    },
                    Ok(Some(write)) => {
                        let next = set_values(values, pin, value);
                        lemma_writes_on_change(next, rest);
                        let effects = seq![Effect::Write(write)] + run(next, rest).effects;
                        assert(effects.skip(1) =~= run(next, rest).effects);
                    },
                }
            },
        }
    }
}

} // verus!
