use node_graph::cache::OutputsCache;
use node_graph::data_type::MyDataType;
use node_graph::id_type::OutputId;
use node_graph::value::{MyValueType, Scalar, TypeMismatch, Vec2};

fn sample_values() -> Vec<MyValueType> {
    let mut entries = serde_json::Map::new();
    entries.insert("k".to_string(), serde_json::Value::Bool(true));
    vec![
        MyValueType::Scalar { value: Scalar { bits: 1.5f32.to_bits() } },
        MyValueType::Vec2 {
            value: Vec2 { x: Scalar { bits: 2.0f32.to_bits() }, y: Scalar { bits: f32::NAN.to_bits() } },
        },
        MyValueType::Widget { value: serde_json::Value::Object(entries) },
        MyValueType::Text { value: "some text".to_string() },
    ]
}

#[test]
fn the_neutral_value_is_the_scalar_zero() {
    assert_eq!(MyValueType::default(), MyValueType::Scalar { value: Scalar { bits: 0 } });
    assert_eq!(MyValueType::default(), MyValueType::Scalar { value: Scalar { bits: 0.0f32.to_bits() } });
}

#[test]
fn every_value_has_the_class_of_its_shape() {
    let classes: Vec<MyDataType> = sample_values().iter().map(|v| v.data_type()).collect();
    assert_eq!(
        classes,
        vec![MyDataType::Scalar, MyDataType::Vec2, MyDataType::Widget, MyDataType::Text]
    );
}

#[test]
fn casting_to_the_matching_shape_returns_the_payload() {
    let scalar = Scalar { bits: 1.5f32.to_bits() };
    assert_eq!(MyValueType::Scalar { value: scalar }.try_to_scalar(), Ok(scalar));
    assert_eq!(f32::from_bits(scalar.bits), 1.5);
    let vector = Vec2 { x: Scalar { bits: 7 }, y: Scalar { bits: u32::MAX } };
    assert_eq!(MyValueType::Vec2 { value: vector }.try_to_vec2(), Ok(vector));
}

#[test]
fn casting_to_another_shape_fails_with_both_shapes() {
    for value in sample_values() {
        let actual = value.data_type();
        let as_scalar = value.clone().try_to_scalar();
        let as_vector = value.clone().try_to_vec2();
        if actual != MyDataType::Scalar {
            assert_eq!(as_scalar, Err(TypeMismatch { actual, expected: MyDataType::Scalar }));
        } else {
            assert!(as_scalar.is_ok());
        }
        if actual != MyDataType::Vec2 {
            assert_eq!(as_vector, Err(TypeMismatch { actual, expected: MyDataType::Vec2 }));
        } else {
            assert!(as_vector.is_ok());
        }
    }
}

#[test]
fn a_duplicate_holds_the_same_as_its_source() {
    for value in sample_values() {
        assert_eq!(value.duplicate(), value);
    }
}

#[test]
fn the_cache_holds_what_was_stored_last() {
    let mut cache = OutputsCache::new();
    let first = OutputId(3);
    let second = OutputId(4);
    assert!(!cache.contains(first));
    assert_eq!(cache.get(first), None);
    let values = sample_values();
    cache.insert(first, values[0].clone());
    cache.insert(second, values[2].clone());
    assert!(cache.contains(first));
    assert!(cache.contains(second));
    assert!(!cache.contains(OutputId(5)));
    assert_eq!(cache.get(first), Some(&values[0]));
    assert_eq!(cache.get(second), Some(&values[2]));
    cache.insert(first, values[3].clone());
    assert_eq!(cache.get(first), Some(&values[3]));
    assert_eq!(cache.get(second), Some(&values[2]));
}

#[test]
fn values_can_be_taken_out_of_the_cache() {
    let mut cache = OutputsCache::default();
    let values = sample_values();
    cache.insert(OutputId(1), values[0].clone());
    cache.insert(OutputId(2), values[1].clone());
    assert_eq!(cache.remove(OutputId(1)), Some(values[0].clone()));
    assert_eq!(cache.remove(OutputId(1)), None);
    assert!(!cache.contains(OutputId(1)));
    assert_eq!(cache.get(OutputId(2)), Some(&values[1]));
    cache.clear();
    assert!(!cache.contains(OutputId(2)));
    assert_eq!(cache.get(OutputId(2)), None);
}
