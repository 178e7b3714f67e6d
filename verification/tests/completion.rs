use fluent_bit_language_server::completion::{
    get_completion, get_hover_info, snippet_to_completion, FlbCompletionSnippet,
    FlbConfigParameter, FlbConfigParameterInfo, FlbData, MarkupKind,
};
use fluent_bit_language_server::section::FlbSectionType;
use fluent_bit_language_server::text::to_decimal;

fn kafka() -> FlbCompletionSnippet {
    FlbCompletionSnippet::new(
        "Kafka",
        None,
        "# Kafka\n",
        vec![
            FlbConfigParameter::new("brokers", Some("kafka:9092"), "List of brokers."),
            FlbConfigParameter::new("client_id", None, "Client id."),
            FlbConfigParameter::new("Buffer_Max_Size", Some("4M"), "Size of the buffer."),
        ],
    )
}

#[test]
fn parameter_line_pads_the_key() {
    let with_default = FlbConfigParameter::new("Port", Some("25826"), "The port.");
    assert_eq!(with_default.to_insert_text(2, 15), "Port            ${2:25826}");
    let without = FlbConfigParameter::new("Path", None, "The path.");
    assert_eq!(without.to_insert_text(12, 6), "Path   $12");
    let long = FlbConfigParameter::new("message_key_field", None, "The field.");
    assert_eq!(long.to_insert_text(1, 15), "message_key_field $1");
    let wide = FlbConfigParameter::new("cl\u{e9}", Some(""), "");
    assert_eq!(wide.to_insert_text(3, 5), "cl\u{e9}   ${3:}");
}

#[test]
fn snippet_inserts_the_name_and_each_parameter() {
    assert_eq!(
        kafka().props_to_insert_text(),
        "Name            kafka\n\
         brokers         ${1:kafka:9092}\n\
         client_id       $2\n\
         Buffer_Max_Size ${3:4M}\n"
    );
    let bare = FlbCompletionSnippet::new("CPU", Some("cpu"), "", vec![]);
    assert_eq!(bare.props_to_insert_text(), "Name            cpu\n");
}

#[test]
fn plugin_name_defaults_to_the_label_in_snake_case() {
    let snippet = FlbCompletionSnippet::new("Network I/O Metrics", None, "", vec![]);
    assert_ne!(snippet.plugin_name, "Network I/O Metrics");
    assert_eq!(
        FlbCompletionSnippet::new("Node Exporter Metrics", None, "", vec![]).plugin_name,
        "node_exporter_metrics"
    );
    assert_eq!(
        FlbCompletionSnippet::new("Network I/O Metrics", Some("netif"), "", vec![]).plugin_name,
        "netif"
    );
}

#[test]
fn documentation_in_plain_text_lists_the_parameters() {
    assert_eq!(
        kafka().documentation_plaintext(),
        "kafka: Kafka\n\n[parameters]\n\
         - brokers: List of brokers.\n\
         - client_id: Client id.\n\
         - Buffer_Max_Size: Size of the buffer.\n"
    );
}

#[test]
fn completion_entry_follows_the_markup() {
    let plain = snippet_to_completion(kafka(), &FlbSectionType::Input, MarkupKind::PlainText);
    assert_eq!(plain.label, "Kafka");
    assert_eq!(plain.label_description, "input plugin");
    assert_eq!(plain.documentation_kind, MarkupKind::PlainText);
    assert_eq!(plain.documentation, kafka().documentation_plaintext());
    assert_eq!(plain.insert_text, kafka().props_to_insert_text());

    let other = FlbSectionType::Other("Service".to_string());
    let markdown = snippet_to_completion(kafka(), &other, MarkupKind::Markdown);
    assert_eq!(markdown.label_description, "Service plugin");
    assert_eq!(markdown.documentation_kind, MarkupKind::Markdown);
    assert_eq!(markdown.documentation, "# Kafka\n");
}

#[test]
fn hover_text_names_the_default() {
    let with_default = FlbConfigParameterInfo {
        default_value: Some("500".to_string()),
        description: "Polling interval.".to_string(),
    };
    assert_eq!(with_default.hover_value(), "Polling interval.\n\n(Default: `500`)");
    let hover = with_default.to_hover(MarkupKind::Markdown);
    assert_eq!(hover.kind, MarkupKind::Markdown);
    assert_eq!(hover.value, "Polling interval.\n\n(Default: `500`)");
    let without =
        FlbConfigParameterInfo { default_value: None, description: "Client id.".to_string() };
    assert_eq!(without.to_hover(MarkupKind::PlainText).value, "Client id.");
}

#[test]
fn data_keeps_snippets_by_section_and_parameters_by_lower_case_key() {
    let mut data = FlbData::new();
    assert!(data.get_snippets(&FlbSectionType::Input).is_none());
    assert!(data.get_parameter_info(&FlbSectionType::Input, "brokers").is_none());

    data.add_snippet(FlbSectionType::Input, kafka());
    data.add_snippet(
        FlbSectionType::Output,
        FlbCompletionSnippet::new(
            "File",
            None,
            "",
            vec![FlbConfigParameter::new("Path", None, "Directory of the files.")],
        ),
    );
    data.add_snippet(
        FlbSectionType::Input,
        FlbCompletionSnippet::new(
            "Collectd",
            None,
            "",
            vec![FlbConfigParameter::new("BROKERS", Some("none"), "Replaced.")],
        ),
    );

    let inputs = data.get_snippets(&FlbSectionType::Input).unwrap();
    assert_eq!(inputs.len(), 2);
    assert_eq!(inputs[0].label, "Kafka");
    assert_eq!(inputs[1].label, "Collectd");
    assert_eq!(data.get_snippets(&FlbSectionType::Output).unwrap().len(), 1);
    assert!(data.get_snippets(&FlbSectionType::Filter).is_none());

    assert_eq!(
        data.get_parameter_info(&FlbSectionType::Input, "brokers"),
        Some(&FlbConfigParameterInfo {
            default_value: Some("none".to_string()),
            description: "Replaced.".to_string(),
        })
    );
    assert_eq!(
        data.get_parameter_info(&FlbSectionType::Input, "buffer_max_size")
            .map(|info| info.description.clone()),
        Some("Size of the buffer.".to_string())
    );
    assert!(data.get_parameter_info(&FlbSectionType::Input, "Buffer_Max_Size").is_none());
    assert!(data.get_parameter_info(&FlbSectionType::Output, "brokers").is_none());
    assert!(data.get_parameter_info(&FlbSectionType::Output, "path").is_some());
}

#[test]
fn hover_info_ignores_the_case_of_the_key() {
    let mut data = FlbData::new();
    data.add_snippet(FlbSectionType::Input, kafka());
    assert_eq!(
        get_hover_info(&data, &FlbSectionType::Input, "Buffer_MAX_size"),
        Some(FlbConfigParameterInfo {
            default_value: Some("4M".to_string()),
            description: "Size of the buffer.".to_string(),
        })
    );
    assert_eq!(get_hover_info(&data, &FlbSectionType::Filter, "brokers"), None);
    assert_eq!(get_hover_info(&data, &FlbSectionType::Input, "unknown"), None);
}

#[test]
fn completion_lists_the_snippets_of_the_section() {
    let mut data = FlbData::new();
    data.add_snippet(FlbSectionType::Input, kafka());
    data.add_snippet(
        FlbSectionType::Input,
        FlbCompletionSnippet::new("CPU", Some("cpu"), "cpu usage", vec![]),
    );
    let entries = get_completion(&data, &FlbSectionType::Input, MarkupKind::Markdown);
    assert_eq!(entries.len(), 2);
    assert_eq!(entries[0].label, "Kafka");
    assert_eq!(entries[1].label, "CPU");
    assert_eq!(entries[1].insert_text, "Name            cpu\n");
    assert_eq!(entries[1].documentation, "cpu usage");
    assert_eq!(get_completion(&data, &FlbSectionType::Output, MarkupKind::Markdown), vec![]);
}

#[test]
fn numbers_are_written_in_decimal() {
    assert_eq!(to_decimal(0), "0");
    assert_eq!(to_decimal(7), "7");
    assert_eq!(to_decimal(10), "10");
    assert_eq!(to_decimal(4096), "4096");
    assert_eq!(to_decimal(1234567890), "1234567890");
}
