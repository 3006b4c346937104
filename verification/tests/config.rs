use osc_blaster::conf::{as_gpio_pin_vector, as_osc_path, Config, ConfigError};
use osc_blaster::document::Node;
use osc_blaster::osc_handler::OscPath;
use osc_blaster::piblaster::GpioPin;

const TYPICAL: &str = "
osc_pin_map:
  /1/fader1: 17
  /1/fader2: [22, 23, 24]
  /1/toggle1: [4]
piblaster: /dev/pi-blaster
port: 8000
";

fn pins(indices: &[usize]) -> Vec<GpioPin> {
    indices.iter().map(|i| GpioPin::new(*i)).collect()
}

fn text(s: &str) -> Node {
    Node::String(s.to_string())
}

fn document(map: Node, device: Node, port: Node) -> Node {
    Node::Hash(vec![(text("osc_pin_map"), map), (text("piblaster"), device), (text("port"), port)])
}

fn error_of(source: &str) -> ConfigError {
    match Config::new(source) {
        Ok(_) => panic!("accepted: {}", source),
        Err(error) => error,
    }
}

#[test]
fn typical_configuration_is_read() {
    let config = Config::new(TYPICAL).unwrap();
    assert_eq!(config.get_port(), 8000);
    assert_eq!(config.get_piblaster_dev_file(), "/dev/pi-blaster");
    let table = config.get_path_pin_map();
    assert_eq!(table.len(), 3);
    assert_eq!(table.get(&OscPath::new("/1/fader1".to_string())), Some(&pins(&[17])));
    assert_eq!(table.get(&OscPath::new("/1/fader2".to_string())), Some(&pins(&[22, 23, 24])));
    assert_eq!(table.get(&OscPath::new("/1/toggle1".to_string())), Some(&pins(&[4])));
    assert_eq!(table.get(&OscPath::new("/1/fader3".to_string())), None);
}

#[test]
fn all_used_pins_come_entry_by_entry() {
    let config = Config::new(TYPICAL).unwrap();
    assert_eq!(config.get_all_used_pins(), pins(&[17, 22, 23, 24, 4]));
}

#[test]
fn pin_under_two_addresses_is_listed_twice() {
    let config = Config::new("osc_pin_map: {/a: [1, 2], /b: 2}\npiblaster: f\nport: 1\n").unwrap();
    assert_eq!(config.get_all_used_pins(), pins(&[1, 2, 2]));
}

#[test]
fn empty_pin_map_is_legal() {
    let config = Config::new("osc_pin_map: {}\npiblaster: /tmp/fifo\nport: 9000\n").unwrap();
    assert_eq!(config.get_path_pin_map().len(), 0);
    assert_eq!(config.get_all_used_pins(), pins(&[]));
    assert_eq!(config.get_port(), 9000);
}

#[test]
fn keys_the_loader_does_not_need_are_ignored() {
    let config =
        Config::new("extra: [1, 2]\nport: 7\nosc_pin_map: {/a: 1}\npiblaster: f\n7: x\n").unwrap();
    assert_eq!(config.get_port(), 7);
    assert_eq!(config.get_all_used_pins(), pins(&[1]));
}

#[test]
fn text_that_is_no_yaml_is_a_syntax_error() {
    assert!(matches!(error_of("osc_pin_map: [1, 2\nport: }"), ConfigError::Syntax(_)));
    assert!(matches!(error_of("a: 'unterminated"), ConfigError::Syntax(_)));
}

#[test]
fn no_document_or_two_documents_are_refused() {
    assert_eq!(error_of(""), ConfigError::DocumentCount);
    let two = format!("{}---\n{}", TYPICAL, TYPICAL);
    assert_eq!(error_of(&two), ConfigError::DocumentCount);
}

#[test]
fn pin_map_must_be_a_dictionary() {
    assert_eq!(error_of("piblaster: f\nport: 1\n"), ConfigError::PinMapNotDictionary);
    assert_eq!(error_of("osc_pin_map: [1]\npiblaster: f\nport: 1\n"), ConfigError::PinMapNotDictionary);
    assert_eq!(error_of("osc_pin_map: 3\npiblaster: f\nport: 1\n"), ConfigError::PinMapNotDictionary);
    assert_eq!(error_of("just a string"), ConfigError::PinMapNotDictionary);
    assert_eq!(error_of("---"), ConfigError::PinMapNotDictionary);
}

#[test]
fn address_must_be_a_string() {
    assert_eq!(error_of("osc_pin_map: {1: 2}\npiblaster: f\nport: 1\n"), ConfigError::PathNotString);
    assert_eq!(
        error_of("osc_pin_map: {true: 2}\npiblaster: f\nport: 1\n"),
        ConfigError::PathNotString
    );
}

#[test]
fn list_of_pins_must_hold_integers_only() {
    assert_eq!(
        error_of("osc_pin_map: {/a: [1, x, 3]}\npiblaster: f\nport: 1\n"),
        ConfigError::PinNotInteger
    );
    assert_eq!(
        error_of("osc_pin_map: {/a: [1.5]}\npiblaster: f\nport: 1\n"),
        ConfigError::PinNotInteger
    );
}

#[test]
fn address_needs_at_least_one_pin() {
    assert_eq!(error_of("osc_pin_map: {/a: []}\npiblaster: f\nport: 1\n"), ConfigError::NoPins);
    assert_eq!(error_of("osc_pin_map: {/a: x}\npiblaster: f\nport: 1\n"), ConfigError::NoPins);
    assert_eq!(error_of("osc_pin_map: {/a: {b: 1}}\npiblaster: f\nport: 1\n"), ConfigError::NoPins);
    assert_eq!(error_of("osc_pin_map: {/a: ~}\npiblaster: f\nport: 1\n"), ConfigError::NoPins);
}

#[test]
fn device_file_must_be_a_string() {
    assert_eq!(error_of("osc_pin_map: {/a: 1}\nport: 1\n"), ConfigError::MissingDeviceFile);
    assert_eq!(
        error_of("osc_pin_map: {/a: 1}\npiblaster: 3\nport: 1\n"),
        ConfigError::MissingDeviceFile
    );
}

#[test]
fn port_must_be_an_integer_of_sixteen_bits() {
    assert_eq!(error_of("osc_pin_map: {/a: 1}\npiblaster: f\n"), ConfigError::MissingPort);
    assert_eq!(error_of("osc_pin_map: {/a: 1}\npiblaster: f\nport: x\n"), ConfigError::MissingPort);
    assert_eq!(
        error_of("osc_pin_map: {/a: 1}\npiblaster: f\nport: 65536\n"),
        ConfigError::PortOutOfRange
    );
    assert_eq!(
        error_of("osc_pin_map: {/a: 1}\npiblaster: f\nport: -1\n"),
        ConfigError::PortOutOfRange
    );
    assert_eq!(Config::new("osc_pin_map: {/a: 1}\npiblaster: f\nport: 65535\n").unwrap().get_port(), 65535);
    assert_eq!(Config::new("osc_pin_map: {/a: 1}\npiblaster: f\nport: 0\n").unwrap().get_port(), 0);
}

#[test]
fn first_fault_decides_the_error() {
    // the pin map is read before the device file and the port
    assert_eq!(error_of("osc_pin_map: {/a: x}\n"), ConfigError::NoPins);
    // entries are read in order
    assert_eq!(
        error_of("osc_pin_map: {/a: [x], 3: 4}\npiblaster: f\nport: 1\n"),
        ConfigError::PinNotInteger
    );
    assert_eq!(
        error_of("osc_pin_map: {3: 4, /a: [x]}\npiblaster: f\nport: 1\n"),
        ConfigError::PathNotString
    );
    // within an entry the address is read before the pins
    assert_eq!(error_of("osc_pin_map: {3: []}\npiblaster: f\nport: 1\n"), ConfigError::PathNotString);
    // the device file is read before the port
    assert_eq!(error_of("osc_pin_map: {/a: 1}\n"), ConfigError::MissingDeviceFile);
}

#[test]
fn negative_pin_wraps_around() {
    let config = Config::new("osc_pin_map: {/a: -1}\npiblaster: f\nport: 1\n").unwrap();
    assert_eq!(config.get_all_used_pins(), pins(&[usize::MAX]));
}

#[test]
fn documents_can_be_given_as_nodes() {
    let doc = document(
        Node::Hash(vec![
            (text("/a"), Node::Integer(1)),
            (text("/b"), Node::Array(vec![Node::Integer(2), Node::Integer(3)])),
        ]),
        text("/dev/pi-blaster"),
        Node::Integer(8000),
    );
    let config = Config::from_documents(vec![doc]).unwrap();
    assert_eq!(config.get_port(), 8000);
    assert_eq!(config.get_piblaster_dev_file(), "/dev/pi-blaster");
    assert_eq!(config.get_all_used_pins(), pins(&[1, 2, 3]));
}

#[test]
fn address_given_twice_keeps_its_place_and_its_last_pins() {
    let doc = document(
        Node::Hash(vec![
            (text("/a"), Node::Integer(1)),
            (text("/b"), Node::Integer(2)),
            (text("/a"), Node::Integer(3)),
        ]),
        text("f"),
        Node::Integer(1),
    );
    let config = Config::from_documents(vec![doc]).unwrap();
    assert_eq!(config.get_path_pin_map().len(), 2);
    assert_eq!(config.get_all_used_pins(), pins(&[3, 2]));
}

#[test]
fn first_of_two_equal_keys_is_the_field() {
    let doc = Node::Hash(vec![
        (text("port"), Node::Integer(1)),
        (text("osc_pin_map"), Node::Hash(vec![])),
        (text("piblaster"), text("f")),
        (text("port"), Node::Integer(2)),
    ]);
    assert_eq!(doc.get("port"), Some(&Node::Integer(1)));
    assert_eq!(Config::from_documents(vec![doc]).unwrap().get_port(), 1);
}

#[test]
fn node_that_is_no_hash_has_no_fields() {
    assert_eq!(Node::Integer(3).get("port"), None);
    assert_eq!(Node::Array(vec![text("port")]).get("port"), None);
    assert_eq!(text("port").get("port"), None);
    assert_eq!(Node::Other.get("port"), None);
    assert_eq!(Node::Hash(vec![(Node::Integer(1), text("x"))]).get("1"), None);
}

#[test]
fn documents_as_nodes_are_refused_like_text() {
    assert_eq!(Config::from_documents(vec![]).err(), Some(ConfigError::DocumentCount));
    assert_eq!(
        Config::from_documents(vec![Node::Other, Node::Other]).err(),
        Some(ConfigError::DocumentCount)
    );
    assert_eq!(Config::from_documents(vec![Node::Other]).err(), Some(ConfigError::PinMapNotDictionary));
    let doc = document(Node::Hash(vec![]), text("f"), Node::Integer(1 << 40));
    assert_eq!(Config::from_documents(vec![doc]).err(), Some(ConfigError::PortOutOfRange));
}

#[test]
fn osc_path_of_a_node() {
    assert_eq!(as_osc_path(&text("/1/fader1")), Ok(OscPath::new("/1/fader1".to_string())));
    assert_eq!(as_osc_path(&Node::Integer(1)), Err(ConfigError::PathNotString));
    assert_eq!(as_osc_path(&Node::Array(vec![text("/a")])), Err(ConfigError::PathNotString));
    assert_eq!(as_osc_path(&Node::Other), Err(ConfigError::PathNotString));
}

#[test]
fn gpio_pins_of_a_node() {
    assert_eq!(as_gpio_pin_vector(&Node::Integer(17)), Ok(pins(&[17])));
    assert_eq!(
        as_gpio_pin_vector(&Node::Array(vec![Node::Integer(4), Node::Integer(4), Node::Integer(0)])),
        Ok(pins(&[4, 4, 0]))
    );
    assert_eq!(as_gpio_pin_vector(&Node::Array(vec![])), Err(ConfigError::NoPins));
    assert_eq!(
        as_gpio_pin_vector(&Node::Array(vec![Node::Integer(4), text("5")])),
        Err(ConfigError::PinNotInteger)
    );
    assert_eq!(
        as_gpio_pin_vector(&Node::Array(vec![Node::Array(vec![Node::Integer(4)])])),
        Err(ConfigError::PinNotInteger)
    );
    assert_eq!(as_gpio_pin_vector(&text("17")), Err(ConfigError::NoPins));
    assert_eq!(as_gpio_pin_vector(&Node::Other), Err(ConfigError::NoPins));
    assert_eq!(as_gpio_pin_vector(&Node::Hash(vec![])), Err(ConfigError::NoPins));
}

#[test]
fn loaded_values_become_nodes_of_their_kind() {
    // quoted scalars are strings, plain ones are read by their form
    let config = Config::new("osc_pin_map: {'1': 0x10, \"/b\": [+7, 0o17]}\npiblaster: '8000'\nport: 8000\n")
        .unwrap();
    assert_eq!(config.get_piblaster_dev_file(), "8000");
    assert_eq!(config.get_path_pin_map().get(&OscPath::new("1".to_string())), Some(&pins(&[16])));
    assert_eq!(config.get_all_used_pins(), pins(&[16, 7, 15]));
    assert_eq!(
        error_of("osc_pin_map: {/a: '1'}\npiblaster: f\nport: 1\n"),
        ConfigError::NoPins
    );
    assert_eq!(
        error_of("osc_pin_map: {/a: 1}\npiblaster: f\nport: '1'\n"),
        ConfigError::MissingPort
    );
}

#[test]
fn configuration_errors_in_words() {
    assert_eq!(ConfigError::DocumentCount.message(), "Only a single doc is supported.");
    assert_eq!(
        ConfigError::PinMapNotDictionary.message(),
        "The osc_pin_map needs to be a dictionary."
    );
    assert_eq!(ConfigError::PathNotString.message(), "Could not convert value into a string.");
    assert_eq!(ConfigError::PinNotInteger.message(), "Vector contains non-integer value.");
    assert_eq!(ConfigError::NoPins.message(), "Could not parse integer or vector of integers.");
    assert_eq!(
        ConfigError::MissingDeviceFile.message(),
        "The piblaster device file needs to be a string."
    );
    assert_eq!(ConfigError::MissingPort.message(), "The port needs to be an integer.");
    assert_eq!(ConfigError::PortOutOfRange.message(), "The port needs to be between 0 and 65535.");
    assert_eq!(error_of("a: [").message(), "The configuration is not valid YAML.");
}

#[test]
fn key_written_twice_counts_where_it_was_written_last() {
    let config =
        Config::new("osc_pin_map: {/a: 1, /b: 2, /a: 3}\npiblaster: f\nport: 1\nport: 2\n").unwrap();
    assert_eq!(config.get_path_pin_map().len(), 2);
    assert_eq!(config.get_all_used_pins(), pins(&[2, 3]));
    assert_eq!(config.get_port(), 2);
}

#[test]
fn nested_values_are_loaded_in_full() {
    let config = Config::new(
        "deep: {a: [1, {b: [2, [3, c]]}]}\nosc_pin_map:\n  /x:\n    - 1\n    - 2\npiblaster: f\nport: 1\n",
    )
    .unwrap();
    assert_eq!(config.get_all_used_pins(), pins(&[1, 2]));
    assert_eq!(
        error_of("osc_pin_map: {/x: [1, [2]]}\npiblaster: f\nport: 1\n"),
        ConfigError::PinNotInteger
    );
}

#[test]
fn port_of_the_command_line_wins() {
    let config = Config::new(TYPICAL).unwrap();
    assert_eq!(config.port_or(None), 8000);
    assert_eq!(config.port_or(Some(9001)), 9001);
    assert_eq!(config.port_or(Some(0)), 0);
}
