//! What the server knows of the plugins: their parameters, and the snippets
//! that complete a section with them.

use crate::section::{section_kind_text, FlbSectionType, SectionKind};
use crate::text::{
    decimal, lowercase, optional_text, padded, push_decimal, push_padded, str_eq,
    str_to_lowercase, string_push_str,
};
use convert_case::{Case, Casing};
use vstd::prelude::*;

verus! {

/// The width to which the keys of a snippet are padded.
pub const KEY_WIDTH: usize = 15;

/// How a text shown to the user is marked up.
#[derive(Clone, Copy, Debug, PartialEq, Eq, Structural)]
pub enum MarkupKind {
    PlainText,
    Markdown,
}

/// What is known of one parameter of a plugin.
#[derive(Clone, Debug, PartialEq, Eq)]
pub struct FlbConfigParameterInfo {
    pub default_value: Option<String>,
    pub description: String,
}

/// A parameter of a plugin: its key and what is known of it.
#[derive(Clone, Debug, PartialEq, Eq)]
pub struct FlbConfigParameter {
    pub key: String,
    pub info: FlbConfigParameterInfo,
}

/// The text shown when the pointer rests on a parameter.
#[derive(Clone, Debug, PartialEq, Eq)]
pub struct Hover {
    pub kind: MarkupKind,
    pub value: String,
}

/// The text that describes a parameter: its description, and its default
/// value where it has one.
pub open spec fn hover_text(description: Seq<char>, default_value: Option<Seq<char>>) -> Seq<char> {
    match default_value {
        Some(value) => description + "\n\n(Default: `"@ + value + "`)"@,
        None => description,
    }
}

/// The placeholder for the value of a parameter at tab stop `tab_stop`: with
/// the default value filled in where there is one.
pub open spec fn value_placeholder(default_value: Option<Seq<char>>, tab_stop: nat) -> Seq<char> {
    match default_value {
        Some(value) => "${"@ + decimal(tab_stop) + ":"@ + value + "}"@,
        None => "$"@ + decimal(tab_stop),
    }
}

/// The line that a snippet inserts for a parameter: the key, padded to
/// `key_width`, a space, and the placeholder for the value.
pub open spec fn insert_text(
    key: Seq<char>,
    default_value: Option<Seq<char>>,
    tab_stop: nat,
    key_width: nat,
) -> Seq<char> {
    padded(key, key_width) + " "@ + value_placeholder(default_value, tab_stop)
}

impl FlbConfigParameterInfo {
    /// A copy of the information.
    pub fn duplicate(&self) -> (copy: FlbConfigParameterInfo)
        ensures
            copy == *self,
    {
        FlbConfigParameterInfo {
            default_value: match &self.default_value {
                Some(value) => Some(value.clone()),
                None => None,
            },
            description: self.description.clone(),
        }
    }

    /// The text that describes the parameter.
    pub fn hover_value(&self) -> (value: String)
        ensures
            value@ == hover_text(self.description@, optional_text(self.default_value)),
    {
        let mut value = self.description.clone();
        match &self.default_value {
            Some(default_value) => {
                string_push_str(&mut value, "\n\n(Default: `");
                string_push_str(&mut value, default_value.as_str());
                string_push_str(&mut value, "`)");
            },
            None => {},
        }
        value
    }

    /// What is shown when the pointer rests on the parameter.
    pub fn to_hover(&self, markup_kind: MarkupKind) -> (hover: Hover)
        ensures
            hover.kind == markup_kind,
            hover.value@ == hover_text(self.description@, optional_text(self.default_value)),
    {
        Hover { kind: markup_kind, value: self.hover_value() }
    }
}

impl FlbConfigParameter {
    /// A parameter from its key, its default value and its description.
    pub fn new(key: &str, default_value: Option<&str>, description: &str) -> (param:
        FlbConfigParameter)
        ensures
            param.key@ == key@,
            param.info.description@ == description@,
            match default_value {
                Some(value) => param.info.default_value is Some
                    && param.info.default_value->0@ == value@,
                None => param.info.default_value is None,
            },
    {
        FlbConfigParameter {
            key: key.to_owned(),
            info: FlbConfigParameterInfo {
                default_value: match default_value {
                    Some(value) => Some(value.to_owned()),
                    None => None,
                },
                description: description.to_owned(),
            },
        }
    }

    /// Appends to `out` the line that a snippet inserts for the parameter.
    fn push_insert_text(&self, out: &mut String, tab_stop: usize, key_width: usize)
        ensures
            final(out)@ == old(out)@ + insert_text(
                self.key@,
                optional_text(self.info.default_value),
                tab_stop as nat,
                key_width as nat,
            ),
    {
        let ghost start = out@;
        push_padded(out, self.key.as_str(), key_width);
        string_push_str(out, " ");
        let ghost head = out@;
        match &self.info.default_value {
            Some(value) => {
                string_push_str(out, "${");
                push_decimal(out, tab_stop);
                string_push_str(out, ":");
                string_push_str(out, value.as_str());
                string_push_str(out, "}");
                assert(out@ =~= head + ("${"@ + decimal(tab_stop as nat) + ":"@ + value@ + "}"@));
            },
            None => {
                string_push_str(out, "$");
                push_decimal(out, tab_stop);
                assert(out@ =~= head + ("$"@ + decimal(tab_stop as nat)));
            },
        }
        assert(out@ =~= start + insert_text(
            self.key@,
            optional_text(self.info.default_value),
            tab_stop as nat,
            key_width as nat,
        ));
    }

    /// The line that a snippet inserts for the parameter, with its value at tab
    /// stop `tab_stop`. Tab stops count from 1.
    pub fn to_insert_text(&self, tab_stop: usize, key_width: usize) -> (text: String)
        requires
            tab_stop > 0,
        ensures
            text@ == insert_text(
                self.key@,
                optional_text(self.info.default_value),
                tab_stop as nat,
                key_width as nat,
            ),
    {
        let mut text = String::new();
        self.push_insert_text(&mut text, tab_stop, key_width);
        assert(Seq::<char>::empty() + insert_text(
            self.key@,
            optional_text(self.info.default_value),
            tab_stop as nat,
            key_width as nat,
        ) =~= insert_text(
            self.key@,
            optional_text(self.info.default_value),
            tab_stop as nat,
            key_width as nat,
        ));
        text
    }
}

/// A snippet that completes a section with one plugin and its parameters.
#[derive(Clone, Debug)]
pub struct FlbCompletionSnippet {
    /// The label under which the snippet is listed, such as `Network I/O Metrics`.
    pub label: String,
    /// The name under which a configuration file refers to the plugin, such
    /// as `netif`.
    pub plugin_name: String,
    pub documentation_markdown: String,
    pub config_params: Vec<FlbConfigParameter>,
}

/// An entry of the list that the editor is offered for completion.
#[derive(Clone, Debug, PartialEq, Eq)]
pub struct CompletionEntry {
    pub label: String,
    /// What the label is followed by: the kind of the plugin.
    pub label_description: String,
    pub documentation_kind: MarkupKind,
    pub documentation: String,
    pub insert_text: String,
}

/// The name that `convert_case` gives `label` in snake case.
pub uninterp spec fn snake_case(label: Seq<char>) -> Seq<char>;

/// `Casing::to_case` with `Case::Snake`: the label in snake case.
#[verifier::external_body]
fn label_to_snake_case(label: &str) -> (name: String)
    ensures
        name@ == snake_case(label@),
{
    label.to_case(Case::Snake)
}

/// The lines that a snippet inserts for the first `n` of its parameters, the
/// value of each at the tab stop of its place in the list, counted from 1.
pub open spec fn parameter_lines(params: Seq<FlbConfigParameter>, n: int) -> Seq<char>
    decreases n,
{
    if n <= 0 {
        Seq::empty()
    } else {
        parameter_lines(params, n - 1) + insert_text(
            params[n - 1].key@,
            optional_text(params[n - 1].info.default_value),
            n as nat,
            KEY_WIDTH as nat,
        ) + "\n"@
    }
}

/// The text that a snippet inserts: a line for the name of the plugin, then
/// one for each parameter.
pub open spec fn snippet_text(plugin_name: Seq<char>, params: Seq<FlbConfigParameter>) -> Seq<
    char,
> {
    padded("Name"@, KEY_WIDTH as nat) + " "@ + plugin_name + "\n"@ + parameter_lines(
        params,
        params.len() as int,
    )
}

/// The lines that describe the first `n` parameters of a snippet in plain text.
pub open spec fn parameter_notes(params: Seq<FlbConfigParameter>, n: int) -> Seq<char>
    decreases n,
{
    if n <= 0 {
        Seq::empty()
    } else {
        parameter_notes(params, n - 1) + "- "@ + params[n - 1].key@ + ": "@ + params[n
            - 1].info.description@ + "\n"@
    }
}

/// The documentation of a snippet in plain text: the plugin and its label,
/// then a note for each parameter.
pub open spec fn plaintext_documentation(
    plugin_name: Seq<char>,
    label: Seq<char>,
    params: Seq<FlbConfigParameter>,
) -> Seq<char> {
    plugin_name + ": "@ + label + "\n\n"@ + "[parameters]\n"@ + parameter_notes(
        params,
        params.len() as int,
    )
}

impl FlbCompletionSnippet {
    /// A snippet for a plugin. Without a name for the plugin, the name is the
    /// label in snake case.
    pub fn new(
        label: &str,
        plugin_name: Option<&str>,
        documentation_markdown: &str,
        config_params: Vec<FlbConfigParameter>,
    ) -> (snippet: FlbCompletionSnippet)
        ensures
            snippet.label@ == label@,
            snippet.plugin_name@ == match plugin_name {
                Some(name) => name@,
                None => snake_case(label@),
            },
            snippet.documentation_markdown@ == documentation_markdown@,
            snippet.config_params == config_params,
    {
        FlbCompletionSnippet {
            label: label.to_owned(),
            plugin_name: match plugin_name {
                Some(name) => name.to_owned(),
                None => label_to_snake_case(label),
            },
            documentation_markdown: documentation_markdown.to_owned(),
            config_params,
        }
    }

    /// The text that the snippet inserts.
    pub fn props_to_insert_text(&self) -> (text: String)
        ensures
            text@ == snippet_text(self.plugin_name@, self.config_params@),
    {
        let mut text = String::new();
        push_padded(&mut text, "Name", KEY_WIDTH);
        string_push_str(&mut text, " ");
        string_push_str(&mut text, self.plugin_name.as_str());
        string_push_str(&mut text, "\n");
        let ghost head = text@;
        assert(head =~= padded("Name"@, KEY_WIDTH as nat) + " "@ + self.plugin_name@ + "\n"@);
        let mut index: usize = 0;
        while index < self.config_params.len()
            invariant
                index <= self.config_params.len(),
                text@ == head + parameter_lines(self.config_params@, index as int),
            decreases self.config_params.len() - index,
        {
            let ghost held = text@;
            self.config_params[index].push_insert_text(&mut text, index + 1, KEY_WIDTH);
            string_push_str(&mut text, "\n");
            assert(text@ =~= head + parameter_lines(self.config_params@, index + 1));
            index += 1;
        }
        text
    }

    /// The documentation of the snippet in plain text.
    pub fn documentation_plaintext(&self) -> (text: String)
        ensures
            text@ == plaintext_documentation(
                self.plugin_name@,
                self.label@,
                self.config_params@,
            ),
    {
        let mut text = self.plugin_name.clone();
        string_push_str(&mut text, ": ");
        string_push_str(&mut text, self.label.as_str());
        string_push_str(&mut text, "\n\n");
        string_push_str(&mut text, "[parameters]\n");
        let ghost head = text@;
        let mut index: usize = 0;
        while index < self.config_params.len()
            invariant
                index <= self.config_params.len(),
                text@ == head + parameter_notes(self.config_params@, index as int),
            decreases self.config_params.len() - index,
        {
            let param = &self.config_params[index];
            string_push_str(&mut text, "- ");
            string_push_str(&mut text, param.key.as_str());
            string_push_str(&mut text, ": ");
            string_push_str(&mut text, param.info.description.as_str());
            string_push_str(&mut text, "\n");
            assert(text@ =~= head + parameter_notes(self.config_params@, index + 1));
            index += 1;
        }
        text
    }
}

/// Whether `entry` offers `snippet` for completion in a section of kind
/// `section`, documented in the markup `markup_kind`.
pub open spec fn is_completion_of(
    entry: CompletionEntry,
    snippet: FlbCompletionSnippet,
    section: SectionKind,
    markup_kind: MarkupKind,
) -> bool {
    &&& entry.label@ == snippet.label@
    &&& entry.label_description@ == section_kind_text(section) + " plugin"@
    &&& entry.documentation_kind == markup_kind
    &&& entry.documentation@ == match markup_kind {
        MarkupKind::PlainText => plaintext_documentation(
            snippet.plugin_name@,
            snippet.label@,
            snippet.config_params@,
        ),
        MarkupKind::Markdown => snippet.documentation_markdown@,
    }
    &&& entry.insert_text@ == snippet_text(snippet.plugin_name@, snippet.config_params@)
}

/// The entry that offers a snippet for completion, from a borrowed snippet.
fn completion_of(
    snippet: &FlbCompletionSnippet,
    section_type: &FlbSectionType,
    markup_kind: MarkupKind,
) -> (entry: CompletionEntry)
    ensures
        is_completion_of(entry, *snippet, section_type@, markup_kind),
{
    let insert_text = snippet.props_to_insert_text();
    let documentation = match markup_kind {
        MarkupKind::PlainText => snippet.documentation_plaintext(),
        MarkupKind::Markdown => snippet.documentation_markdown.clone(),
    };
    let mut label_description = section_type.to_text();
    string_push_str(&mut label_description, " plugin");
    CompletionEntry {
        label: snippet.label.clone(),
        label_description,
        documentation_kind: markup_kind,
        documentation,
        insert_text,
    }
}

/// The entry that offers `snippet` for completion in a section of kind
/// `section_type`: its label, the kind of plugin beside it, its documentation
/// in the markup that the editor asked for, and the text that it inserts.
pub fn snippet_to_completion(
    snippet: FlbCompletionSnippet,
    section_type: &FlbSectionType,
    markup_kind: MarkupKind,
) -> (entry: CompletionEntry)
    ensures
        is_completion_of(entry, snippet, section_type@, markup_kind),
{
    completion_of(&snippet, section_type, markup_kind)
}

/// The snippets of one kind of section.
pub struct SnippetGroup {
    section: FlbSectionType,
    snippets: Vec<FlbCompletionSnippet>,
}

/// What is known of the parameter `key` in sections of kind `section`.
pub struct ParameterEntry {
    section: FlbSectionType,
    key: String,
    info: FlbConfigParameterInfo,
}

/// The snippets and the parameters that the server knows, by kind of section.
pub struct FlbData {
    snippets: Vec<SnippetGroup>,
    params: Vec<ParameterEntry>,
}

/// The index of the last of the first `n` groups that is of kind `kind`, or -1.
pub closed spec fn group_position(groups: Seq<SnippetGroup>, kind: SectionKind, n: int) -> int
    decreases n,
{
    if n <= 0 {
        -1
    } else if groups[n - 1].section@ == kind {
        n - 1
    } else {
        group_position(groups, kind, n - 1)
    }
}

/// What the last of the first `n` entries for `key` in sections of kind `kind`
/// holds.
pub closed spec fn entry_lookup(
    entries: Seq<ParameterEntry>,
    kind: SectionKind,
    key: Seq<char>,
    n: int,
) -> Option<FlbConfigParameterInfo>
    decreases n,
{
    if n <= 0 {
        None
    } else if entries[n - 1].section@ == kind && entries[n - 1].key@ == key {
        Some(entries[n - 1].info)
    } else {
        entry_lookup(entries, kind, key, n - 1)
    }
}

/// What the last of the first `n` parameters holds whose key is `key` in lower
/// case.
pub open spec fn last_parameter(params: Seq<FlbConfigParameter>, key: Seq<char>, n: int) -> Option<
    FlbConfigParameterInfo,
>
    decreases n,
{
    if n <= 0 {
        None
    } else if lowercase(params[n - 1].key@) == key {
        Some(params[n - 1].info)
    } else {
        last_parameter(params, key, n - 1)
    }
}

/// Groups that differ in their snippets only hold each kind at the same place.
proof fn lemma_group_position_by_section(
    a: Seq<SnippetGroup>,
    b: Seq<SnippetGroup>,
    kind: SectionKind,
    n: int,
)
    requires
        n <= a.len() == b.len(),
        forall|i: int| 0 <= i < a.len() ==> a[i].section@ == b[i].section@,
    ensures
        group_position(a, kind, n) == group_position(b, kind, n),
    decreases n,
{
    if n > 0 {
        lemma_group_position_by_section(a, b, kind, n - 1);
    }
}

impl FlbData {
    /// The snippets for sections of kind `kind`, in the order in which they
    /// were added, where any were.
    pub closed spec fn snippets_of(&self, kind: SectionKind) -> Option<Seq<FlbCompletionSnippet>> {
        let at = group_position(self.snippets@, kind, self.snippets@.len() as int);
        if at < 0 {
            None
        } else {
            Some(self.snippets@[at].snippets@)
        }
    }

    /// What is known of the parameter `key` in sections of kind `kind`.
    pub closed spec fn parameter_of(&self, kind: SectionKind, key: Seq<char>) -> Option<
        FlbConfigParameterInfo,
    > {
        entry_lookup(self.params@, kind, key, self.params@.len() as int)
    }

    /// Data without snippets or parameters.
    pub fn new() -> (data: FlbData)
        ensures
            forall|kind: SectionKind| (#[trigger] data.snippets_of(kind)) is None,
            forall|kind: SectionKind, key: Seq<char>|
                (#[trigger] data.parameter_of(kind, key)) is None,
    {
        FlbData { snippets: Vec::new(), params: Vec::new() }
    }

    /// The index of the group of kind `section_type`, if there is one.
    fn find_group(&self, section_type: &FlbSectionType) -> (found: Option<usize>)
        ensures
            match found {
                Some(at) => at < self.snippets@.len() && group_position(
                    self.snippets@,
                    section_type@,
                    self.snippets@.len() as int,
                ) == at,
                None => group_position(
                    self.snippets@,
                    section_type@,
                    self.snippets@.len() as int,
                ) == -1,
            },
    {
        let mut n = self.snippets.len();
        while n > 0
            invariant
                n <= self.snippets@.len(),
                group_position(self.snippets@, section_type@, n as int) == group_position(
                    self.snippets@,
                    section_type@,
                    self.snippets@.len() as int,
                ),
            decreases n,
        {
            if self.snippets[n - 1].section.same(section_type) {
                return Some(n - 1);
            }
            n -= 1;
        }
        None
    }

    /// Adds a snippet for sections of kind `section_type`, after the snippets
    /// that this kind has so far, and records what the snippet says of each of
    /// its parameters under the parameter's key in lower case. What was known
    /// of a parameter of that key and kind before is replaced; what is known
    /// for other kinds and keys stays.
    pub fn add_snippet(&mut self, section_type: FlbSectionType, snippet: FlbCompletionSnippet)
        ensures
            forall|kind: SectionKind| #[trigger]
                final(self).snippets_of(kind) == if kind == section_type@ {
                    match old(self).snippets_of(kind) {
                        Some(held) => Some(held.push(snippet)),
                        None => Some(seq![snippet]),
                    }
                } else {
                    old(self).snippets_of(kind)
                },
            forall|kind: SectionKind, key: Seq<char>| #[trigger]
                final(self).parameter_of(kind, key) == if kind == section_type@ {
                    match last_parameter(
                        snippet.config_params@,
                        key,
                        snippet.config_params@.len() as int,
                    ) {
                        Some(info) => Some(info),
                        None => old(self).parameter_of(kind, key),
                    }
                } else {
                    old(self).parameter_of(kind, key)
                },
    {
        let ghost old_params = self.params@;
        let ghost old_groups = self.snippets@;
        let mut index: usize = 0;
        while index < snippet.config_params.len()
            invariant
                index <= snippet.config_params@.len(),
                self.snippets@ == old_groups,
                forall|kind: SectionKind, key: Seq<char>| #[trigger]
                    entry_lookup(self.params@, kind, key, self.params@.len() as int) == if kind
                        == section_type@ {
                        match last_parameter(snippet.config_params@, key, index as int) {
                            Some(info) => Some(info),
                            None => entry_lookup(old_params, kind, key, old_params.len() as int),
                        }
                    } else {
                        entry_lookup(old_params, kind, key, old_params.len() as int)
                    },
            decreases snippet.config_params@.len() - index,
        {
            let param = &snippet.config_params[index];
            let ghost held = self.params@;
            let entry = ParameterEntry {
                section: section_type.duplicate(),
                key: str_to_lowercase(param.key.as_str()),
                info: param.info.duplicate(),
            };
            self.params.push(entry);
            proof {
                assert forall|kind: SectionKind, key: Seq<char>| #[trigger]
                    entry_lookup(self.params@, kind, key, self.params@.len() as int) == if kind
                        == section_type@ {
                        match last_parameter(snippet.config_params@, key, index + 1) {
                            Some(info) => Some(info),
                            None => entry_lookup(old_params, kind, key, old_params.len() as int),
                        }
                    } else {
                        entry_lookup(old_params, kind, key, old_params.len() as int)
                    } by {
                    lemma_entry_lookup_prefix(self.params@, held, kind, key, held.len() as int);
                }
            }
            index += 1;
        }
        match self.find_group(&section_type) {
            Some(at) => {
                self.snippets[at].snippets.push(snippet);
                proof {
                    assert(self.snippets@.len() == old_groups.len());
                    assert(self.snippets@[at as int].section == old_groups[at as int].section);
                    assert(self.snippets@[at as int].snippets@ == old_groups[at as int].snippets@.push(
                        snippet,
                    ));
                    assert(forall|i: int|
                        0 <= i < old_groups.len() && i != at ==> self.snippets@[i]
                            == old_groups[i]);
                    assert forall|kind: SectionKind| #[trigger]
                        self.snippets_of(kind) == if kind == section_type@ {
                            match old(self).snippets_of(kind) {
                                Some(held) => Some(held.push(snippet)),
                                None => Some(seq![snippet]),
                            }
                        } else {
                            old(self).snippets_of(kind)
                        } by {
                        let n = old_groups.len() as int;
                        lemma_group_position_by_section(self.snippets@, old_groups, kind, n);
                        lemma_group_position_holds(old_groups, kind, n);
                        lemma_group_position_holds(old_groups, section_type@, n);
                    }
                }
            },
            None => {
                let mut snippets: Vec<FlbCompletionSnippet> = Vec::new();
                snippets.push(snippet);
                self.snippets.push(SnippetGroup { section: section_type, snippets });
                proof {
                    assert(self.snippets@[old_groups.len() as int].snippets@ =~= seq![snippet]);
                    assert forall|kind: SectionKind| #[trigger]
                        self.snippets_of(kind) == if kind == section_type@ {
                            match old(self).snippets_of(kind) {
                                Some(held) => Some(held.push(snippet)),
                                None => Some(seq![snippet]),
                            }
                        } else {
                            old(self).snippets_of(kind)
                        } by {
                        let n = old_groups.len() as int;
                        lemma_group_position_prefix(self.snippets@, old_groups, kind, n);
                        lemma_group_position_holds(old_groups, kind, n);
                    }
                }
            },
        }
    }

    /// The snippets for sections of kind `section_type`, where any were added.
    pub fn get_snippets(&self, section_type: &FlbSectionType) -> (found: Option<
        &Vec<FlbCompletionSnippet>,
    >)
        ensures
            match found {
                Some(snippets) => self.snippets_of(section_type@) == Some(snippets@),
                None => self.snippets_of(section_type@) is None,
            },
    {
        match self.find_group(section_type) {
            Some(at) => Some(&self.snippets[at].snippets),
            None => None,
        }
    }

    /// What is known of the parameter `key`, as written, in sections of kind
    /// `section_type`.
    pub fn get_parameter_info(&self, section_type: &FlbSectionType, key: &str) -> (found: Option<
        &FlbConfigParameterInfo,
    >)
        ensures
            match found {
                Some(info) => self.parameter_of(section_type@, key@) == Some(*info),
                None => self.parameter_of(section_type@, key@) is None,
            },
    {
        let mut n = self.params.len();
        while n > 0
            invariant
                n <= self.params@.len(),
                entry_lookup(self.params@, section_type@, key@, n as int) == entry_lookup(
                    self.params@,
                    section_type@,
                    key@,
                    self.params@.len() as int,
                ),
            decreases n,
        {
            let entry = &self.params[n - 1];
            if entry.section.same(section_type) && str_eq(entry.key.as_str(), key) {
                return Some(&entry.info);
            }
            n -= 1;
        }
        None
    }
}

/// A lookup among the first `n` entries of a list sees the same in a longer
/// list that starts with those entries.
proof fn lemma_entry_lookup_prefix(
    longer: Seq<ParameterEntry>,
    shorter: Seq<ParameterEntry>,
    kind: SectionKind,
    key: Seq<char>,
    n: int,
)
    requires
        n <= shorter.len() <= longer.len(),
        forall|i: int| 0 <= i < shorter.len() ==> longer[i] == shorter[i],
    ensures
        entry_lookup(longer, kind, key, n) == entry_lookup(shorter, kind, key, n),
    decreases n,
{
    if n > 0 {
        lemma_entry_lookup_prefix(longer, shorter, kind, key, n - 1);
    }
}

/// The place of a kind among the first `n` groups of a list is the same in a
/// longer list that starts with those groups.
proof fn lemma_group_position_prefix(
    longer: Seq<SnippetGroup>,
    shorter: Seq<SnippetGroup>,
    kind: SectionKind,
    n: int,
)
    requires
        n <= shorter.len() <= longer.len(),
        forall|i: int| 0 <= i < shorter.len() ==> longer[i] == shorter[i],
    ensures
        group_position(longer, kind, n) == group_position(shorter, kind, n),
    decreases n,
{
    if n > 0 {
        lemma_group_position_prefix(longer, shorter, kind, n - 1);
    }
}

/// The group at the place of a kind is of that kind.
proof fn lemma_group_position_holds(groups: Seq<SnippetGroup>, kind: SectionKind, n: int)
    requires
        n <= groups.len(),
    ensures
        -1 <= group_position(groups, kind, n),
        group_position(groups, kind, n) < n || n <= 0,
        group_position(groups, kind, n) >= 0 ==> groups[group_position(groups, kind, n)].section@
            == kind,
    decreases n,
{
    if n > 0 {
        lemma_group_position_holds(groups, kind, n - 1);
    }
}

/// The entries that complete a section of kind `section_type`: one for each
/// snippet of that kind, in order.
pub fn get_completion(data: &FlbData, section_type: &FlbSectionType, markup_kind: MarkupKind) -> (entries:
    Vec<CompletionEntry>)
    ensures
        match data.snippets_of(section_type@) {
            Some(snippets) => entries@.len() == snippets.len() && forall|i: int|
                0 <= i < snippets.len() ==> is_completion_of(
                    #[trigger] entries@[i],
                    snippets[i],
                    section_type@,
                    markup_kind,
                ),
            None => entries@.len() == 0,
        },
{
    let mut entries: Vec<CompletionEntry> = Vec::new();
    match data.get_snippets(section_type) {
        Some(snippets) => {
            let mut index: usize = 0;
            while index < snippets.len()
                invariant
                    index <= snippets@.len(),
                    entries@.len() == index,
                    forall|i: int|
                        0 <= i < index ==> is_completion_of(
                            #[trigger] entries@[i],
                            snippets@[i],
                            section_type@,
                            markup_kind,
                        ),
                decreases snippets@.len() - index,
            {
                entries.push(completion_of(&snippets[index], section_type, markup_kind));
                index += 1;
            }
        },
        None => {},
    }
    entries
}

/// What is known of the parameter `key` in sections of kind `section_type`,
/// whatever the case of the letters of `key`.
pub fn get_hover_info(data: &FlbData, section_type: &FlbSectionType, key: &str) -> (info: Option<
    FlbConfigParameterInfo,
>)
    ensures
        info == data.parameter_of(section_type@, lowercase(key@)),
{
    let lower = str_to_lowercase(key);
    match data.get_parameter_info(section_type, lower.as_str()) {
        Some(info) => Some(info.duplicate()),
        None => None,
    }
}

} // verus!
