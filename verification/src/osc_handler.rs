//! The router: from packets to pin commands, and from commands to the
//! effects that the caller carries out on the control file.

use crate::conf::Config;
use crate::level::{narrowed, Level};
use crate::packet::{OscMessage, OscPacket, OscType};
use crate::piblaster::{set_outcome, set_values, BlasterError, GpioPin, PiBlaster, PinWrite};
use crate::routing::{all_pins, lemma_all_pins_routed, lookup, routed, Entries, RoutingTable};
use vstd::prelude::*;

verus! {

/// An OSC address, compared letter by letter.
#[derive(Debug, Hash, PartialEq, Eq)]
pub struct OscPath {
    path: String,
}

impl View for OscPath {
    type V = Seq<char>;

    closed spec fn view(&self) -> Seq<char> {
        self.path@
    }
}

impl OscPath {
    /// The address with the given text.
    pub fn new(path: String) -> (osc_path: Self)
        ensures
            osc_path@ == path@,
    {
        Self { path: path }
    }

    /// Whether two paths are the same address.
    pub fn same_as(&self, other: &OscPath) -> (r: bool)
        ensures
            r == (self@ == other@),
    {
        self.path == other.path
    }
}

impl Clone for OscPath {
    /// The same address once more.
    fn clone(&self) -> (osc_path: Self)
        ensures
            osc_path@ == self@,
    {
        Self { path: self.path.clone() }
    }
}

/// Something about a message that is worth a log line and stops nothing.
#[derive(Clone, Copy, Debug, PartialEq, Eq, Structural)]
pub enum Warning {
    /// The message has `found` arguments where one is expected.
    ArgumentCount { found: usize },
    /// The first argument is neither a single nor a double precision number.
    UnsupportedType,
}

/// One thing a packet asks for, in the order in which the packet asks.
#[derive(Clone, Copy, Debug, PartialEq, Eq, Structural)]
pub enum Command {
    Warn(Warning),
    SetPin(GpioPin, Level),
    Flush,
}

/// One thing for the caller to carry out.
#[derive(Clone, Copy, Debug, PartialEq, Eq, Structural)]
pub enum Effect {
    /// Record the warning.
    Warn(Warning),
    /// Append the write's line to the control file.
    Write(PinWrite),
    /// Synchronise the control file.
    Flush,
}

/// What the control file did with the effect handed out last.
#[derive(Clone, Copy, Debug, PartialEq, Eq, Structural)]
pub enum SinkReport {
    /// It was carried out, or there was nothing to carry out.
    Accepted,
    /// The line could not be written.
    WriteFailed,
    /// The file could not be synchronised.
    SyncFailed,
}

/// The level that the router reads from an argument: a single-precision
/// number as it is, a double-precision number narrowed to single precision,
/// and nothing from any other argument.
pub open spec fn coerced(arg: OscType) -> Option<Level> {
    match arg {
        OscType::Float(level) => Some(level),
        OscType::Double(double) => Some(Level { bits: narrowed(double) }),
        _ => None,
    }
}

/// The commands that set every pin of `pins` to `value`, in the pins' order.
pub open spec fn set_commands(pins: Seq<GpioPin>, value: Level) -> Seq<Command> {
    pins.map_values(|pin: GpioPin| Command::SetPin(pin, value))
}

/// The commands of one message.
///
/// An argument count other than one is warned about. Without arguments
/// nothing else happens. Otherwise the first argument decides: a number is
/// sent to every pin of the message's address, in the table's order, or to
/// none where the table does not know the address; anything else is warned
/// about and dropped.
pub open spec fn message_commands(entries: Entries, msg: OscMessage) -> Seq<Command> {
    let count_warning = if msg.args@.len() != 1 {
        seq![Command::Warn(Warning::ArgumentCount { found: msg.args@.len() as usize })]
    } else {
        Seq::empty()
    };
    if msg.args@.len() == 0 {
        count_warning
    } else {
        match coerced(msg.args@[0]) {
            None => count_warning.push(Command::Warn(Warning::UnsupportedType)),
            Some(value) => match lookup(entries, msg.addr@) {
                None => count_warning,
                Some(pins) => count_warning + set_commands(pins, value),
            },
        }
    }
}

/// The commands of a packet: those of a message, or those of a bundle's
/// packets one after the other.
pub open spec fn packet_commands(entries: Entries, packet: OscPacket) -> Seq<Command>
    decreases packet, 0nat,
{
    match packet {
        OscPacket::Message(msg) => message_commands(entries, msg),
        OscPacket::Bundle(bundle) => content_commands(
            entries,
            bundle.content@,
            bundle.content@.len(),
        ),
    }
}

/// The commands of the first `upto` packets of `content`.
pub open spec fn content_commands(entries: Entries, content: Seq<OscPacket>, upto: nat) -> Seq<
    Command,
>
    decreases content, upto,
{
    if upto == 0 || upto > content.len() {
        Seq::empty()
    } else {
        content_commands(entries, content, (upto - 1) as nat) + packet_commands(
            entries,
            content[upto - 1],
        )
    }
}

/// Everything a call of `handle_packet` works through: the packet's commands
/// and one flush after them.
pub open spec fn plan(entries: Entries, packet: OscPacket) -> Seq<Command> {
    packet_commands(entries, packet).push(Command::Flush)
}

/// One step through pending commands.
pub struct Step {
    /// The effect to carry out, the failure that ends the handling, or
    /// nothing where no command is left.
    pub outcome: Option<Result<Effect, BlasterError>>,
    /// The stored levels after the step.
    pub values: Map<GpioPin, Level>,
    /// The commands still pending.
    pub pending: Seq<Command>,
}

/// The step from `values` and `pending` while the control file takes what it
/// is given: commands that change nothing are passed over, the first one with
/// an effect hands it out, and an unconfigured pin ends the handling.
pub open spec fn step(values: Map<GpioPin, Level>, pending: Seq<Command>) -> Step
    decreases pending.len(),
{
    if pending.len() == 0 {
        Step { outcome: None, values, pending }
    } else {
        match pending[0] {
            Command::Warn(warning) => Step {
                outcome: Some(Ok(Effect::Warn(warning))),
                values,
                pending: pending.skip(1),
            },
            Command::Flush => Step {
                outcome: Some(Ok(Effect::Flush)),
                values,
                pending: pending.skip(1),
            },
            Command::SetPin(pin, value) => match set_outcome(values, pin, value) {
                Err(error) => Step { outcome: Some(Err(error)), values, pending: Seq::empty() },
                Ok(None) => step(values, pending.skip(1)),
                Ok(Some(write)) => Step {
                    outcome: Some(Ok(Effect::Write(write))),
                    values: set_values(values, pin, value),
                    pending: pending.skip(1),
                },
            },
        }
    }
}

/// A whole handling.
pub struct Run {
    /// The effects, in the order in which they are handed out.
    pub effects: Seq<Effect>,
    /// The stored levels at the end.
    pub values: Map<GpioPin, Level>,
    /// Whether every command was worked through.
    pub result: Result<(), BlasterError>,
}

/// The handling of `commands` from `values` while the control file takes what
/// it is given: the commands are worked through in order, up to the first that
/// names an unconfigured pin.
pub open spec fn run(values: Map<GpioPin, Level>, commands: Seq<Command>) -> Run
    decreases commands.len(),
{
    if commands.len() == 0 {
        Run { effects: Seq::empty(), values, result: Ok(()) }
    } else {
        match commands[0] {
            Command::Warn(warning) => {
                let rest = run(values, commands.skip(1));
                Run { effects: seq![Effect::Warn(warning)] + rest.effects, ..rest }
            },
            Command::Flush => {
                let rest = run(values, commands.skip(1));
                Run { effects: seq![Effect::Flush] + rest.effects, ..rest }
            },
            Command::SetPin(pin, value) => match set_outcome(values, pin, value) {
                Err(error) => Run { effects: Seq::empty(), values, result: Err(error) },
                Ok(None) => run(values, commands.skip(1)),
                Ok(Some(write)) => {
                    let rest = run(set_values(values, pin, value), commands.skip(1));
                    Run { effects: seq![Effect::Write(write)] + rest.effects, ..rest }
                },
            },
        }
    }
}

/// A handling is its first step followed by the handling of what the step
/// leaves pending.
pub proof fn lemma_run_unfolds(values: Map<GpioPin, Level>, commands: Seq<Command>)
    ensures
        run(values, commands) == (match step(values, commands).outcome {
            None => Run { effects: Seq::empty(), values: step(values, commands).values, result: Ok(()) },
            Some(Err(error)) => Run {
                effects: Seq::empty(),
                values: step(values, commands).values,
                result: Err(error),
            },
            Some(Ok(effect)) => {
                let rest = run(step(values, commands).values, step(values, commands).pending);
                Run { effects: seq![effect] + rest.effects, ..rest }
            },
        }),
    decreases commands.len(),
{
    if commands.len() > 0 {
        match commands[0] {
            Command::SetPin(pin, value) => {
                if set_outcome(values, pin, value) == Ok::<Option<PinWrite>, BlasterError>(None) {
                    lemma_run_unfolds(values, commands.skip(1));
                }
            },
            _ => {},
        }
    }
}

/// What one call of `handle_packet` gave.
#[derive(Debug, PartialEq, Eq)]
pub struct Handled {
    /// The effects for the caller to carry out, in order.
    pub effects: Vec<Effect>,
    /// Whether the packet was worked through, or why not.
    pub result: Result<(), BlasterError>,
}

/// The router with its actuator.
pub struct OSCHandler {
    piblaster: PiBlaster,
    path_map: RoutingTable,
    queue: Vec<Command>,
    position: usize,
}

impl OSCHandler {
    /// The routing table, as a list.
    pub closed spec fn table(self) -> Entries {
        self.path_map.entries()
    }

    /// The level last stored for each configured pin.
    pub closed spec fn values(self) -> Map<GpioPin, Level> {
        self.piblaster@
    }

    /// The commands of the packet in hand that are still to be worked
    /// through.
    pub closed spec fn pending(self) -> Seq<Command> {
        if self.position <= self.queue@.len() {
            self.queue@.skip(self.position as int)
        } else {
            Seq::empty()
        }
    }

    /// A handler that routes by `path_map` and stores levels in `piblaster`,
    /// with no packet in hand.
    pub fn new(piblaster: PiBlaster, path_map: RoutingTable) -> (handler: Self)
        ensures
            handler.values() == piblaster@,
            handler.table() == path_map.entries(),
            handler.pending() == Seq::<Command>::empty(),
    {
        let handler = Self { piblaster: piblaster, path_map: path_map, queue: Vec::new(), position: 0 };
        handler
    }

    /// The handler for a configuration: its routing table, and an actuator
    /// built for all pins of the table, each at zero. Every pin that the
    /// table can lead to is configured.
    pub fn from_config(config: &Config) -> (handler: Self)
        ensures
            handler.table() == config@.routes,
            handler.values() == Map::new(
                |pin: GpioPin| all_pins(config@.routes).contains(pin),
                |pin: GpioPin| Level { bits: 0 },
            ),
            handler.pending() == Seq::<Command>::empty(),
            forall|pin: GpioPin|
                routed(handler.table(), pin) ==> #[trigger] handler.values().contains_key(pin),
    {
        let piblaster = PiBlaster::new(&config.get_all_used_pins());
        let handler = Self::new(piblaster, config.get_path_pin_map().clone());
        assert forall|pin: GpioPin| routed(handler.table(), pin) implies #[trigger] handler.values().contains_key(
            pin,
        ) by {
            lemma_all_pins_routed(handler.table(), pin);
        }
        handler
    }

    /// Adds the commands that set all pins assigned to the path to the
    /// specified value.
    fn set_path(&self, path: &OscPath, value: Level, commands: &mut Vec<Command>)
        requires
            lookup(self.table(), path@).is_some(),
        ensures
            final(commands)@ == old(commands)@ + set_commands(
                lookup(self.table(), path@).unwrap(),
                value,
            ),
    {
        let pins = match self.path_map.get(path) {
            Some(pins) => pins,
            None => {
                return ;
            },
        };
        let mut i: usize = 0;
        while i < pins.len()
            invariant
                i <= pins@.len(),
                commands@ == old(commands)@ + set_commands(pins@.subrange(0, i as int), value),
            decreases pins.len() - i,
        {
            commands.push(Command::SetPin(pins[i], value));
            i += 1;
        }
    }

    /// Adds the commands of `packet`, bundles unwrapped in order.
    fn handle_packet_internal(&self, packet: &OscPacket, commands: &mut Vec<Command>)
        ensures
            final(commands)@ == old(commands)@ + packet_commands(self.table(), *packet),
        decreases packet,
    {
        match packet {
            OscPacket::Message(msg) => {
                if msg.args.len() != 1 {
                    commands.push(Command::Warn(Warning::ArgumentCount { found: msg.args.len() }));
                }
                if msg.args.len() > 0 {
                    let val = match &msg.args[0] {
                        OscType::Float(f) => Some(*f),
                        OscType::Double(d) => Some(Level::from_double_bits(*d)),
                        _ => {
                            commands.push(Command::Warn(Warning::UnsupportedType));
                            None
                        },
                    };
                    if let Some(v) = val {
                        let path = OscPath::new(msg.addr.clone());
                        if self.path_map.contains_key(&path) {
                            self.set_path(&path, v, commands);
                        }
                    }
                }
            },
            OscPacket::Bundle(bundle) => {
                let mut i: usize = 0;
                while i < bundle.content.len()
                    invariant
                        i <= bundle.content@.len(),
                        *packet == OscPacket::Bundle(*bundle),
                        commands@ == old(commands)@ + content_commands(
                            self.table(),
                            bundle.content@,
                            i as nat,
                        ),
                    decreases bundle.content.len() - i,
                {
                    assert(packet->Bundle_0 == *bundle);
                    self.handle_packet_internal(&bundle.content[i], commands);
                    i += 1;
                }
            },
        }
    }

    /// Takes a packet in hand: its commands, and one flush after them, become
    /// the pending ones. Commands left over from an earlier packet are
    /// dropped.
    pub fn begin(&mut self, packet: &OscPacket)
        ensures
            final(self).pending() == plan(old(self).table(), *packet),
            final(self).values() == old(self).values(),
            final(self).table() == old(self).table(),
    {
        let mut commands: Vec<Command> = Vec::new();
        self.handle_packet_internal(packet, &mut commands);
        commands.push(Command::Flush);
        self.queue = commands;
        self.position = 0;
    }

    /// Hands out the next effect of the packet in hand.
    ///
    /// `report` says what became of the effect handed out last. After a
    /// failure the handling ends with the matching error: what is pending is
    /// dropped, and the stored levels stay as they are, the level of the
    /// failed write included. Otherwise the pending commands are stepped
    /// through as `step` says.
    pub fn next_effect(&mut self, report: SinkReport) -> (outcome: Option<
        Result<Effect, BlasterError>,
    >)
        ensures
            final(self).table() == old(self).table(),
            final(self).values().dom() == old(self).values().dom(),
            report == SinkReport::WriteFailed ==> {
                &&& outcome == Some(Err::<Effect, BlasterError>(BlasterError::SinkWrite))
                &&& final(self).values() == old(self).values()
                &&& final(self).pending() == Seq::<Command>::empty()
            },
            report == SinkReport::SyncFailed ==> {
                &&& outcome == Some(Err::<Effect, BlasterError>(BlasterError::SinkSync))
                &&& final(self).values() == old(self).values()
                &&& final(self).pending() == Seq::<Command>::empty()
            },
            report == SinkReport::Accepted ==> {
                &&& outcome == step(old(self).values(), old(self).pending()).outcome
                &&& final(self).values() == step(old(self).values(), old(self).pending()).values
                &&& final(self).pending() == step(old(self).values(), old(self).pending()).pending
            },
    {
        match report {
            SinkReport::WriteFailed => {
                self.position = self.queue.len();
                return Some(Err(BlasterError::SinkWrite));
            },
            SinkReport::SyncFailed => {
                self.position = self.queue.len();
                return Some(Err(BlasterError::SinkSync));
            },
            SinkReport::Accepted => {},
        }
        while self.position < self.queue.len()
            invariant
                report == SinkReport::Accepted,
                self.table() == old(self).table(),
                self.values() == old(self).values(),
                step(self.values(), self.pending()) == step(old(self).values(), old(self).pending()),
            decreases self.queue.len() - self.position,
        {
            let ghost before = self.pending();
            let command = self.queue[self.position];
            self.position += 1;
            assert(self.pending() =~= before.skip(1));
            match command {
                Command::Warn(warning) => {
                    return Some(Ok(Effect::Warn(warning)));
                },
                Command::Flush => {
                    return Some(Ok(Effect::Flush));
                },
                Command::SetPin(pin, value) => {
                    match self.piblaster.set_pin(&pin, value) {
                        Err(error) => {
                            self.position = self.queue.len();
                            return Some(Err(error));
                        },
                        Ok(None) => {},
                        Ok(Some(write)) => {
                            return Some(Ok(Effect::Write(write)));
                        },
                    }
                },
            }
        }
        None
    }

    /// Works through a whole packet for a control file that takes whatever it
    /// is given, and returns the effects in order.
    ///
    /// The effects and the stored levels are those of `run` on the packet's
    /// plan: on success the flush is the last effect; after an unconfigured
    /// pin the effects end with the last write before it and no flush
    /// follows.
    pub fn handle_packet(&mut self, packet: OscPacket) -> (handled: Handled)
        ensures
            handled.effects@ == run(old(self).values(), plan(old(self).table(), packet)).effects,
            handled.result == run(old(self).values(), plan(old(self).table(), packet)).result,
            final(self).values() == run(old(self).values(), plan(old(self).table(), packet)).values,
            final(self).values().dom() == old(self).values().dom(),
            final(self).table() == old(self).table(),
            final(self).pending() == Seq::<Command>::empty(),
    {
        self.begin(&packet);
        let ghost whole = run(old(self).values(), plan(old(self).table(), packet));
        let mut effects: Vec<Effect> = Vec::new();
        loop
            invariant
                self.table() == old(self).table(),
                self.values().dom() == old(self).values().dom(),
                whole == run(old(self).values(), plan(old(self).table(), packet)),
                whole.effects == effects@ + run(self.values(), self.pending()).effects,
                whole.values == run(self.values(), self.pending()).values,
                whole.result == run(self.values(), self.pending()).result,
            decreases self.pending().len(),
        {
            proof {
                lemma_run_unfolds(self.values(), self.pending());
                lemma_step_shrinks(self.values(), self.pending());
            }
            match self.next_effect(SinkReport::Accepted) {
                None => {
                    return Handled { effects, result: Ok(()) };
                },
                Some(Err(error)) => {
                    return Handled { effects, result: Err(error) };
                },
                Some(Ok(effect)) => {
                    effects.push(effect);
                },
            }
        }
    }
}

/// A step that hands out an effect leaves fewer commands pending, and a step
/// that ends the handling leaves none.
pub proof fn lemma_step_shrinks(values: Map<GpioPin, Level>, pending: Seq<Command>)
    ensures
        step(values, pending).outcome matches Some(Ok(_)) ==> step(values, pending).pending.len()
            < pending.len(),
        !(step(values, pending).outcome matches Some(Ok(_))) ==> step(
            values,
            pending,
        ).pending.len() == 0,
    decreases pending.len(),
{
    if pending.len() > 0 {
        match pending[0] {
            Command::SetPin(pin, value) => {
                if set_outcome(values, pin, value) == Ok::<Option<PinWrite>, BlasterError>(None) {
                    lemma_step_shrinks(values, pending.skip(1));
                }
            },
            _ => {},
        }
    }
}

} // verus!
