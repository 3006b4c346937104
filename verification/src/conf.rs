//! The configuration: which address drives which pins, where the control
//! file is, and the port to listen on.

use crate::document::{field, node_of_yaml, yaml_documents, yaml_node, Node};
use crate::osc_handler::OscPath;
use crate::piblaster::GpioPin;
use crate::routing::{all_pins, inserted, Entries, RoutingTable};
use vstd::prelude::*;
use yaml_rust::{ScanError, Yaml, YamlLoader};

verus! {

/// Why a configuration was refused.
#[derive(Debug, PartialEq)]
pub enum ConfigError {
    /// The text is not YAML.
    Syntax(ScanError),
    /// The text does not hold exactly one document.
    DocumentCount,
    /// `osc_pin_map` is missing or is no dictionary.
    PinMapNotDictionary,
    /// An address in `osc_pin_map` is no string.
    PathNotString,
    /// A list of pins holds something that is no integer.
    PinNotInteger,
    /// An address has neither an integer nor a list with integers in it.
    NoPins,
    /// `piblaster` is missing or is no string.
    MissingDeviceFile,
    /// `port` is missing or is no integer.
    MissingPort,
    /// `port` does not fit in sixteen bits.
    PortOutOfRange,
}

impl ConfigError {
    /// The error in words. Of a syntax error the words say no more than that
    /// it is one: the scanner's own account is in the error it returned.
    pub open spec fn text(self) -> Seq<char> {
        match self {
            ConfigError::Syntax(_) => "The configuration is not valid YAML."@,
            ConfigError::DocumentCount => "Only a single doc is supported."@,
            ConfigError::PinMapNotDictionary => "The osc_pin_map needs to be a dictionary."@,
            ConfigError::PathNotString => "Could not convert value into a string."@,
            ConfigError::PinNotInteger => "Vector contains non-integer value."@,
            ConfigError::NoPins => "Could not parse integer or vector of integers."@,
            ConfigError::MissingDeviceFile => "The piblaster device file needs to be a string."@,
            ConfigError::MissingPort => "The port needs to be an integer."@,
            ConfigError::PortOutOfRange => "The port needs to be between 0 and 65535."@,
        }
    }

    /// The error in words.
    pub fn message(&self) -> (message: String)
        ensures
            message@ == self.text(),
    {
        match self {
            ConfigError::Syntax(_) => "The configuration is not valid YAML.".to_owned(),
            ConfigError::DocumentCount => "Only a single doc is supported.".to_owned(),
            ConfigError::PinMapNotDictionary => "The osc_pin_map needs to be a dictionary.".to_owned(),
            ConfigError::PathNotString => "Could not convert value into a string.".to_owned(),
            ConfigError::PinNotInteger => "Vector contains non-integer value.".to_owned(),
            ConfigError::NoPins => "Could not parse integer or vector of integers.".to_owned(),
            ConfigError::MissingDeviceFile => "The piblaster device file needs to be a string.".to_owned(),
            ConfigError::MissingPort => "The port needs to be an integer.".to_owned(),
            ConfigError::PortOutOfRange => "The port needs to be between 0 and 65535.".to_owned(),
        }
    }
}

/// What a configuration holds.
pub struct ConfigView {
    /// The routing table as a list.
    pub routes: Entries,
    /// The path of the control file.
    pub device_file: Seq<char>,
    /// The port to listen on.
    pub port: u16,
}

/// The address that a key of `osc_pin_map` names.
pub open spec fn path_of(node: Node) -> Result<Seq<char>, ConfigError> {
    match node {
        Node::String(s) => Ok(s@),
        _ => Err(ConfigError::PathNotString),
    }
}

/// The pin that an integer names. An integer outside the range of indices
/// wraps around into it.
pub open spec fn pin_of(i: i64) -> GpioPin {
    GpioPin { index: i as usize }
}

/// The pins that a value of `osc_pin_map` names: one for an integer, one for
/// each member of a list of integers. A list with another kind of member is
/// refused, and so is whatever names no pin at all.
pub open spec fn pins_of(node: Node) -> Result<Seq<GpioPin>, ConfigError> {
    match node {
        Node::Integer(i) => Ok(seq![pin_of(i)]),
        Node::Array(items) => if exists|k: int|
            0 <= k < items@.len() && !((#[trigger] items@[k]) is Integer) {
            Err(ConfigError::PinNotInteger)
        } else if items@.len() == 0 {
            Err(ConfigError::NoPins)
        } else {
            Ok(items@.map_values(|item: Node| pin_of(item->Integer_0)))
        },
        _ => Err(ConfigError::NoPins),
    }
}

/// The routing table that the entries of `osc_pin_map` build, taken in
/// order: the first entry at fault decides the error, and an address that
/// comes again replaces its pins.
pub open spec fn routes_of(entries: Seq<(Node, Node)>) -> Result<Entries, ConfigError>
    decreases entries.len(),
{
    if entries.len() == 0 {
        Ok(Entries::empty())
    } else {
        match routes_of(entries.drop_last()) {
            Err(error) => Err(error),
            Ok(table) => match path_of(entries.last().0) {
                Err(error) => Err(error),
                Ok(path) => match pins_of(entries.last().1) {
                    Err(error) => Err(error),
                    Ok(pins) => Ok(inserted(table, path, pins)),
                },
            },
        }
    }
}

/// The port that a value of `port` names.
pub open spec fn port_of(node: Option<Node>) -> Result<u16, ConfigError> {
    match node {
        Some(Node::Integer(i)) => if 0 <= i <= 0xffff {
            Ok(i as u16)
        } else {
            Err(ConfigError::PortOutOfRange)
        },
        _ => Err(ConfigError::MissingPort),
    }
}

/// The configuration that a list of documents gives. There must be one
/// document. Its `osc_pin_map` is read first, then `piblaster`, then `port`,
/// and the first at fault decides the error.
pub open spec fn parsed(docs: Seq<Node>) -> Result<ConfigView, ConfigError> {
    if docs.len() != 1 {
        Err(ConfigError::DocumentCount)
    } else {
        match field(docs[0], "osc_pin_map"@) {
            Some(Node::Hash(entries)) => match routes_of(entries@) {
                Err(error) => Err(error),
                Ok(routes) => match field(docs[0], "piblaster"@) {
                    Some(Node::String(device_file)) => match port_of(field(docs[0], "port"@)) {
                        Err(error) => Err(error),
                        Ok(port) => Ok(ConfigView { routes, device_file: device_file@, port }),
                    },
                    _ => Err(ConfigError::MissingDeviceFile),
                },
            },
            _ => Err(ConfigError::PinMapNotDictionary),
        }
    }
}

/// The address that a key of `osc_pin_map` names.
pub fn as_osc_path(node: &Node) -> (r: Result<OscPath, ConfigError>)
    ensures
        match r {
            Ok(path) => path_of(*node) == Ok::<Seq<char>, ConfigError>(path@),
            Err(error) => path_of(*node) == Err::<Seq<char>, ConfigError>(error),
        },
{
    match node {
        Node::String(s) => Ok(OscPath::new(s.clone())),
        _ => Err(ConfigError::PathNotString),
    }
}

/// The pins that a value of `osc_pin_map` names.
pub fn as_gpio_pin_vector(node: &Node) -> (r: Result<Vec<GpioPin>, ConfigError>)
    ensures
        match r {
            Ok(pins) => pins_of(*node) == Ok::<Seq<GpioPin>, ConfigError>(pins@),
            Err(error) => pins_of(*node) == Err::<Seq<GpioPin>, ConfigError>(error),
        },
{
    let mut v: Vec<GpioPin> = Vec::new();
    match node {
        Node::Integer(pin) => {
            v.push(GpioPin::new(#[verifier::truncate] (*pin as usize)));
        },
        Node::Array(items) => {
            let mut i: usize = 0;
            while i < items.len()
                invariant
                    i <= items@.len(),
                    *node == Node::Array(*items),
                    forall|k: int| 0 <= k < i ==> (#[trigger] items@[k]) is Integer,
                    v@ == items@.subrange(0, i as int).map_values(
                        |item: Node| pin_of(item->Integer_0),
                    ),
                decreases items.len() - i,
            {
                match &items[i] {
                    Node::Integer(pin) => {
                        v.push(GpioPin::new(#[verifier::truncate] (*pin as usize)));
                    },
                    _ => {
                        return Err(ConfigError::PinNotInteger);
                    },
                }
                i += 1;
            }
            assert(items@.subrange(0, i as int) =~= items@);
        },
        _ => {},
    }
    if v.len() == 0 {
        return Err(ConfigError::NoPins);
    }
    Ok(v)
}

/// A configuration.
pub struct Config {
    path_pin_map: RoutingTable,
    pibaster_dev_file: String,
    port: u16,
}

impl View for Config {
    type V = ConfigView;

    closed spec fn view(&self) -> ConfigView {
        ConfigView {
            routes: self.path_pin_map.entries(),
            device_file: self.pibaster_dev_file@,
            port: self.port,
        }
    }
}

/// A result of building a configuration, with the configuration as what it
/// holds.
pub open spec fn viewed(r: Result<Config, ConfigError>) -> Result<ConfigView, ConfigError> {
    match r {
        Ok(config) => Ok(config@),
        Err(error) => Err(error),
    }
}

impl Config {
    /// Reads a configuration from YAML text.
    ///
    /// A text that does not scan is refused as a syntax error. The documents
    /// of any other text are taken as `from_documents` takes them.
    pub fn new(config_raw: &str) -> (r: Result<Config, ConfigError>)
        ensures
            match yaml_documents(config_raw@) {
                None => r matches Err(ConfigError::Syntax(_)),
                Some(docs) => viewed(r) == parsed(docs),
            },
    {
        let docs = match YamlLoader::load_from_str(config_raw) {
            Ok(docs) => docs,
            Err(error) => {
                return Err(ConfigError::Syntax(error));
            },
        };
        let mut nodes: Vec<Node> = Vec::new();
        let mut i: usize = 0;
        while i < docs.len()
            invariant
                i <= docs@.len(),
                nodes@ == docs@.subrange(0, i as int).map_values(|doc: Yaml| yaml_node(doc)),
            decreases docs.len() - i,
        {
            nodes.push(node_of_yaml(&docs[i]));
            i += 1;
        }
        Config::from_documents(nodes)
    }

    /// Builds a configuration from loaded documents.
    pub fn from_documents(docs: Vec<Node>) -> (r: Result<Config, ConfigError>)
        ensures
            viewed(r) == parsed(docs@),
    {
        if docs.len() != 1 {
            return Err(ConfigError::DocumentCount);
        }
        let doc = &docs[0];
        // get the map
        let mut pin_map = RoutingTable::new();
        let map = match doc.get("osc_pin_map") {
            Some(Node::Hash(m)) => m,
            _ => {
                return Err(ConfigError::PinMapNotDictionary);
            },
        };
        let mut i: usize = 0;
        while i < map.len()
            invariant
                i <= map@.len(),
                docs@.len() == 1,
                *doc == docs@[0],
                field(docs@[0], "osc_pin_map"@) == Some(Node::Hash(*map)),
                routes_of(map@.subrange(0, i as int)) == Ok::<Entries, ConfigError>(
                    pin_map.entries(),
                ),
            decreases map.len() - i,
        {
            proof {
                let upto = map@.subrange(0, i + 1);
                assert(upto.drop_last() =~= map@.subrange(0, i as int));
            }
            let osc_path = match as_osc_path(&map[i].0) {
                Ok(osc_path) => osc_path,
                Err(error) => {
                    proof {
                        lemma_routes_fail_early(map@, i + 1);
                    }
                    return Err(error);
                },
            };
            let pin_vec = match as_gpio_pin_vector(&map[i].1) {
                Ok(pin_vec) => pin_vec,
                Err(error) => {
                    proof {
                        lemma_routes_fail_early(map@, i + 1);
                    }
                    return Err(error);
                },
            };
            pin_map.insert(osc_path, pin_vec);
            i += 1;
        }
        assert(map@.subrange(0, i as int) =~= map@);
        // get the piblaster path
        let path = match doc.get("piblaster") {
            Some(Node::String(s)) => s.clone(),
            _ => {
                return Err(ConfigError::MissingDeviceFile);
            },
        };
        // get port
        let port: u16 = match doc.get("port") {
            Some(Node::Integer(i)) => {
                if 0 <= *i && *i <= 0xffff {
                    *i as u16
                } else {
                    return Err(ConfigError::PortOutOfRange);
                }
            },
            _ => {
                return Err(ConfigError::MissingPort);
            },
        };
        Ok(Self { path_pin_map: pin_map, pibaster_dev_file: path, port: port })
    }

    /// The routing table.
    pub fn get_path_pin_map(&self) -> (table: &RoutingTable)
        ensures
            table.entries() == self@.routes,
    {
        &self.path_pin_map
    }

    /// Every pin of the routing table, entry by entry. A pin that several
    /// addresses drive comes once for each.
    pub fn get_all_used_pins(&self) -> (pins: Vec<GpioPin>)
        ensures
            pins@ == all_pins(self@.routes),
    {
        self.path_pin_map.all_pins()
    }

    /// The path of the pi-blaster control file.
    pub fn get_piblaster_dev_file(&self) -> (path: &String)
        ensures
            path@ == self@.device_file,
    {
        &self.pibaster_dev_file
    }

    /// The port to listen on.
    pub fn get_port(&self) -> (port: u16)
        ensures
            port == self@.port,
    {
        self.port
    }

    /// The port to listen on when the command line may name one: the
    /// command line's, or else the configuration's.
    pub fn port_or(&self, given: Option<u16>) -> (port: u16)
        ensures
            port == (match given {
                Some(p) => p,
                None => self@.port,
            }),
    {
        if let Some(p) = given {
            p
        } else {
            self.get_port()
        }
    }
}

/// Once a beginning of the entries is refused, the whole is refused for the
/// same reason.
pub proof fn lemma_routes_fail_early(entries: Seq<(Node, Node)>, upto: int)
    requires
        0 <= upto <= entries.len(),
        routes_of(entries.subrange(0, upto)) is Err,
    ensures
        routes_of(entries) == routes_of(entries.subrange(0, upto)),
    decreases entries.len() - upto,
{
    if upto < entries.len() {
        let next = entries.subrange(0, upto + 1);
        assert(next.drop_last() =~= entries.subrange(0, upto));
        lemma_routes_fail_early(entries, upto + 1);
    } else {
        assert(entries.subrange(0, upto) =~= entries);
    }
}

} // verus!
