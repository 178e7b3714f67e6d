use fluent_bit_language_server::schema::{
    FlbConfigSchema, FlbInfo, FlbPlugin, FlbProperty, FlbPropertyType, SchemaError,
};
use fluent_bit_language_server::section::FlbSectionType;
use serde_json::Value;

fn property_from(value: &Value) -> FlbProperty {
    FlbProperty {
        type_: value["type"].as_str().unwrap().parse().unwrap(),
        name: value["name"].as_str().unwrap().to_string(),
        description: value["description"].as_str().unwrap().to_string(),
        default: value["default"].as_str().map(|text| text.to_string()),
    }
}

fn properties_from(value: Option<&Value>) -> Option<Vec<FlbProperty>> {
    value.map(|list| list.as_array().unwrap().iter().map(property_from).collect())
}

fn host() -> FlbProperty {
    FlbProperty {
        type_: FlbPropertyType::String,
        name: "host".to_string(),
        description: "Host Address".to_string(),
        default: Some("".to_string()),
    }
}

fn dns_mode() -> FlbProperty {
    FlbProperty {
        type_: FlbPropertyType::String,
        name: "net.dns.mode".to_string(),
        description: "Select the primary DNS connection type (TCP or UDP)".to_string(),
        default: None,
    }
}

#[test]
fn flb_plugin_deserialize() {
    let properties: Value = serde_json::from_str(
        r#"{
                "options": [
                    {
                        "name": "host",
                        "description": "Host Address",
                        "default": "",
                        "type": "string"
                    }
                ],
                "networking": [
                    {
                        "name": "net.dns.mode",
                        "description": "Select the primary DNS connection type (TCP or UDP)",
                        "default": null,
                        "type": "string"
                    }
                ]
            }"#,
    )
    .unwrap();
    assert_eq!(properties_from(properties.get("networking")), Some(vec![dns_mode()]));

    let plugin = FlbPlugin::from_parts(
        FlbSectionType::Custom,
        "custom".to_string(),
        "custom".to_string(),
        properties_from(properties.get("options")),
        properties_from(properties.get("networking")),
        properties_from(properties.get("network_tls")),
    );

    assert_eq!(plugin, FlbPlugin {
        type_: FlbSectionType::Custom,
        name: "custom".to_string(),
        description: "custom".to_string(),
        properties: vec![FlbProperty {
            type_: FlbPropertyType::String,
            name: "host".to_string(),
            description: "Host Address".to_string(),
            default: Some("".to_string())
        }],
        has_networking: true,
        has_network_tls: false
    });
    assert_eq!(plugin.properties, vec![host()]);
}

#[test]
fn plugin_without_options_has_no_properties() {
    let plugin = FlbPlugin::from_parts(
        FlbSectionType::Output,
        "null".to_string(),
        "discard".to_string(),
        None,
        None,
        Some(vec![]),
    );
    assert_eq!(plugin.properties, vec![]);
    assert!(!plugin.has_networking);
    assert!(plugin.has_network_tls);
}

#[test]
fn flb_property_deserialize() {
    let value: Value = serde_json::from_str(
        r#"{
                "type": "space delimited strings (minimum 3)",
                "name": "name",
                "description": "desc",
                "default": "abc def ghi"
            }"#,
    )
    .unwrap();
    let property = property_from(&value);

    assert_eq!(property, FlbProperty {
        type_: FlbPropertyType::SpaceDelimitedStringsWithMinimum(3),
        name: "name".to_string(),
        description: "desc".to_string(),
        default: Some("abc def ghi".to_string())
    });
}

#[test]
fn property_type_with_a_minimum_is_parsed() {
    assert_eq!(
        FlbPropertyType::from_name("space delimited strings (minimum 3)"),
        Ok(FlbPropertyType::SpaceDelimitedStringsWithMinimum(3))
    );
    assert_eq!(
        FlbPropertyType::from_name("comma delimited strings (minimum 0012)"),
        Ok(FlbPropertyType::CommaDelimitedStringsWithMinimum(12))
    );
    assert_eq!(
        FlbPropertyType::from_name("comma delimited strings (minimum 4294967295)"),
        Ok(FlbPropertyType::CommaDelimitedStringsWithMinimum(u32::MAX))
    );
}

#[test]
fn fixed_property_types_are_parsed() {
    assert_eq!(FlbPropertyType::from_name("string"), Ok(FlbPropertyType::String));
    assert_eq!(FlbPropertyType::from_name("integer"), Ok(FlbPropertyType::Integer));
    assert_eq!(FlbPropertyType::from_name("boolean"), Ok(FlbPropertyType::Boolean));
    assert_eq!(FlbPropertyType::from_name("double"), Ok(FlbPropertyType::Double));
    assert_eq!(FlbPropertyType::from_name("size"), Ok(FlbPropertyType::Size));
    assert_eq!(FlbPropertyType::from_name("time"), Ok(FlbPropertyType::Time));
    assert_eq!(
        FlbPropertyType::from_name("multiple comma delimited strings"),
        Ok(FlbPropertyType::CommaDelimitedStringsUnlimited)
    );
    assert_eq!(
        FlbPropertyType::from_name("multiple space delimited strings"),
        Ok(FlbPropertyType::SpaceDelimitedStringsUnlimited)
    );
    assert_eq!(FlbPropertyType::from_name("prefixed string"), Ok(FlbPropertyType::PrefixedString));
    assert_eq!(FlbPropertyType::from_name("deprecated"), Ok(FlbPropertyType::Deprecated));
}

#[test]
fn other_names_are_refused() {
    let unknown = Err(SchemaError::UnknownPropertyType);
    assert_eq!(FlbPropertyType::from_name(""), unknown);
    assert_eq!(FlbPropertyType::from_name("String"), unknown);
    assert_eq!(FlbPropertyType::from_name("comma delimited strings (minimum )"), unknown);
    assert_eq!(FlbPropertyType::from_name("comma delimited strings (minimum 3"), unknown);
    assert_eq!(FlbPropertyType::from_name("comma delimited strings (minimum -3)"), unknown);
    assert_eq!(FlbPropertyType::from_name("comma delimited strings (minimum 3) "), unknown);
    assert_eq!(FlbPropertyType::from_name(" space delimited strings (minimum 3)"), unknown);
    assert_eq!(
        FlbPropertyType::from_name("space delimited strings (minimum 4294967296)"),
        Err(SchemaError::MinimumTooLarge)
    );
    assert_eq!(
        FlbPropertyType::from_name("comma delimited strings (minimum 99999999999999999999999)"),
        Err(SchemaError::MinimumTooLarge)
    );
}

#[test]
fn property_type_is_written_as_it_is_parsed() {
    let all = [
        FlbPropertyType::String,
        FlbPropertyType::Integer,
        FlbPropertyType::Boolean,
        FlbPropertyType::Double,
        FlbPropertyType::Size,
        FlbPropertyType::Time,
        FlbPropertyType::CommaDelimitedStringsUnlimited,
        FlbPropertyType::CommaDelimitedStringsWithMinimum(0),
        FlbPropertyType::CommaDelimitedStringsWithMinimum(25),
        FlbPropertyType::SpaceDelimitedStringsUnlimited,
        FlbPropertyType::SpaceDelimitedStringsWithMinimum(u32::MAX),
        FlbPropertyType::PrefixedString,
        FlbPropertyType::Deprecated,
    ];
    for property_type in all.iter() {
        assert_eq!(FlbPropertyType::from_name(&property_type.to_text()), Ok(*property_type));
    }
    assert_eq!(
        FlbPropertyType::SpaceDelimitedStringsWithMinimum(3).to_text(),
        "space delimited strings (minimum 3)"
    );
    assert_eq!(
        FlbPropertyType::CommaDelimitedStringsWithMinimum(40).to_text(),
        "comma delimited strings (minimum 40)"
    );
}

#[test]
fn default_schema_is_empty() {
    let schema = FlbConfigSchema::default();
    assert_eq!(schema.fluent_bit, FlbInfo::default());
    assert_eq!(schema.fluent_bit.version, "");
    assert!(schema.inputs.is_empty() && schema.outputs.is_empty());
    assert!(schema.customs.is_empty() && schema.filters.is_empty());
}
