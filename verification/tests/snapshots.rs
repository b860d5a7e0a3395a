use qtable::{QConfig, QTable, QUpdate};
use serde_json::{Number, Value};

fn number(bits: u64) -> Value {
    Value::Number(Number::from_f64(f64::from_bits(bits)).unwrap())
}

fn to_text(table: &QTable) -> String {
    let rows = table
        .cells()
        .iter()
        .map(|row| Value::Array(row.iter().map(|bits| number(*bits)).collect()))
        .collect();
    let c = table.config();
    let mut config = serde_json::Map::new();
    config.insert("state_size".to_string(), Value::from(c.state_size as u64));
    config.insert("action_size".to_string(), Value::from(c.action_size as u64));
    config.insert("gamma".to_string(), number(c.gamma));
    config.insert("alpha".to_string(), number(c.alpha));
    config.insert("epsilon".to_string(), number(c.epsilon));
    let mut root = serde_json::Map::new();
    root.insert("qvalues".to_string(), Value::Array(rows));
    root.insert("config".to_string(), Value::Object(config));
    serde_json::to_string(&Value::Object(root)).unwrap()
}

fn bits_of(value: &Value) -> u64 {
    value.as_f64().unwrap().to_bits()
}

fn from_text(text: &str) -> QTable {
    let root: Value = serde_json::from_str(text).unwrap();
    let c = &root["config"];
    let config = QConfig {
        state_size: c["state_size"].as_u64().unwrap() as usize,
        action_size: c["action_size"].as_u64().unwrap() as usize,
        gamma: bits_of(&c["gamma"]),
        alpha: bits_of(&c["alpha"]),
        epsilon: bits_of(&c["epsilon"]),
    };
    let cells = root["qvalues"]
        .as_array()
        .unwrap()
        .iter()
        .map(|row| row.as_array().unwrap().iter().map(bits_of).collect())
        .collect();
    QTable::new_with(config, cells).unwrap()
}

fn scattered(states: usize, actions: usize) -> QTable {
    let mut seed: u64 = 0x9E37_79B9_7F4A_7C15;
    let mut cells = Vec::new();
    for _ in 0..states {
        let mut row = Vec::new();
        for _ in 0..actions {
            seed = seed.wrapping_mul(6364136223846793005).wrapping_add(1442695040888963407);
            let unit = (seed >> 11) as f64 / (1u64 << 53) as f64;
            row.push((unit * 2.0 - 1.0).to_bits());
        }
        cells.push(row);
    }
    let config = QConfig { state_size: states, action_size: actions, ..QConfig::default() };
    QTable::new_with(config, cells).unwrap()
}

#[test]
fn snapshot_survives_structured_text() {
    let table = scattered(40, 25);
    let text = to_text(&table);
    let back = from_text(&text);
    assert_eq!(back.config(), table.config());
    assert_eq!(back.cells(), table.cells());
}

#[test]
fn snapshot_of_a_learned_table_survives_structured_text() {
    let mut table = scattered(3, 4);
    let step = QUpdate {
        state: table.pick_state(2).unwrap(),
        action: table.pick_action(1).unwrap(),
        reward: 0.5f64.to_bits(),
        next_state: table.pick_state(0).unwrap(),
    };
    table.update(step, (1.0f64 / 3.0).to_bits()).unwrap();
    table.decay_alpha_with_rate((0.5f64 * 0.999).to_bits());
    table.decay_epsilon_with_rate((0.5f64 * 0.1).to_bits());
    let back = from_text(&to_text(&table));
    assert_eq!(back.config(), table.config());
    assert_eq!(back.cells(), table.cells());
    assert_eq!(back.cells()[2][1], (1.0f64 / 3.0).to_bits());
}

#[test]
fn snapshot_text_has_the_grid_and_the_configuration() {
    let config = QConfig { state_size: 1, action_size: 2, ..QConfig::default() };
    let table = QTable::new_with(config, vec![vec![0.25f64.to_bits(), (-0.5f64).to_bits()]]).unwrap();
    assert_eq!(
        to_text(&table),
        "{\"config\":{\"action_size\":2,\"alpha\":0.5,\"epsilon\":0.5,\"gamma\":0.99,\"state_size\":1},\"qvalues\":[[0.25,-0.5]]}"
    );
}
