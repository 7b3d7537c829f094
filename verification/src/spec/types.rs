//! Data model of the withfig/autocomplete spec format.
//!
//! The static parts of a spec (names, options, args, suggestions, templates)
//! are held as plain values; fields whose JSON shape is free-form stay JSON
//! values that the engine carries but never reads.
use vstd::prelude::*;
use crate::text::chars_of;

verus! {

#[verifier::external_type_specification]
#[verifier::external_body]
pub struct ExJsonValue(serde_json::Value);

/// `std::slice::from_ref`: a one-element slice over the referenced value.
#[verifier::external_body]
fn slice_from_ref<T>(v: &T) -> (r: &[T])
    ensures
        r@ == seq![*v],
{
    std::slice::from_ref(v)
}

/// A value that is either a single item or a list of items.
#[derive(Debug, Clone, PartialEq)]
pub enum SingleOrArray<T> {
    Single(T),
    Array(Vec<T>),
}

impl<T> SingleOrArray<T> {
    /// The items in order: one for `Single`, the list for `Array`.
    pub open spec fn items(&self) -> Seq<T> {
        match self {
            SingleOrArray::Single(v) => seq![*v],
            SingleOrArray::Array(v) => v@,
        }
    }

    pub fn into_vec(self) -> (r: Vec<T>)
        ensures
            r@ == self.items(),
    {
        match self {
            SingleOrArray::Single(v) => vec![v],
            SingleOrArray::Array(v) => v,
        }
    }

    pub fn as_slice(&self) -> (r: &[T])
        ensures
            r@ == self.items(),
    {
        match self {
            SingleOrArray::Single(v) => slice_from_ref(v),
            SingleOrArray::Array(v) => v.as_slice(),
        }
    }
}

impl<T: Clone> SingleOrArray<T> {
    pub fn to_vec(&self) -> (r: Vec<T>)
        ensures
            r@.len() == self.items().len(),
            forall|i: int| 0 <= i < r@.len() ==> cloned::<T>(#[trigger] self.items()[i], r@[i]),
    {
        match self {
            SingleOrArray::Single(v) => {
                let c = v.clone();
                vec![c]
            },
            SingleOrArray::Array(v) => v.clone(),
        }
    }
}

/// The list conversions agree: `into_vec`, `as_slice` and `to_vec` all give
/// the items in order, one item for `Single(v)` (namely `v`) and the list
/// itself for `Array(vs)`.
pub proof fn law_list_conversions(
    s: SingleOrArray<String>,
    owned: Seq<String>,
    borrowed: Seq<String>,
    copied: Seq<String>,
)
    requires
        owned == s.items(),
        borrowed == s.items(),
        copied.len() == s.items().len(),
        forall|i: int| 0 <= i < copied.len() ==> cloned::<String>(#[trigger] s.items()[i], copied[i]),
    ensures
        owned == borrowed,
        copied == owned,
        s matches SingleOrArray::Single(v) ==> owned == seq![v],
        s matches SingleOrArray::Array(vs) ==> owned == vs@,
{
    assert forall|i: int| 0 <= i < copied.len() implies copied[i] == owned[i] by {
        assert(cloned::<String>(s.items()[i], copied[i]));
    }
    assert(copied =~= owned);
}

/// The views of a sequence of strings.
pub open spec fn string_views(s: Seq<String>) -> Seq<Seq<char>> {
    s.map_values(|x: String| x@)
}

/// The views of a sequence of string slices.
pub open spec fn str_views<'a>(s: Seq<&'a str>) -> Seq<Seq<char>> {
    s.map_values(|x: &'a str| x@)
}

/// Whether a name is written in long form (starts with `--`).
pub open spec fn is_long_name(s: Seq<char>) -> bool {
    s.len() >= 2 && s[0] == '-' && s[1] == '-'
}

/// The first long-form name of a list, if any.
pub open spec fn first_long_name(names: Seq<Seq<char>>) -> Option<Seq<char>>
    decreases names.len(),
{
    if names.len() == 0 {
        None
    } else if is_long_name(names[0]) {
        Some(names[0])
    } else {
        first_long_name(names.drop_first())
    }
}

/// The first long-form name of a list, else its first name (or the empty
/// text when it has none).
pub open spec fn long_or_primary(names: Seq<Seq<char>>) -> Seq<char> {
    match first_long_name(names) {
        Some(l) => l,
        None => first_or_empty(names),
    }
}

/// The first name of a list, or the empty text.
pub open spec fn first_or_empty(names: Seq<Seq<char>>) -> Seq<char> {
    if names.len() > 0 {
        names[0]
    } else {
        Seq::empty()
    }
}

/// Whether a string starts with `--`.
pub fn starts_with_long_prefix(s: &str) -> (b: bool)
    ensures
        b == is_long_name(s@),
{
    let cs = chars_of(s);
    cs.len() >= 2 && cs[0] == '-' && cs[1] == '-'
}

/// The names held by a name list, as string slices.
fn name_strs(name: &SingleOrArray<String>) -> (r: Vec<&str>)
    ensures
        str_views(r@) == string_views(name.items()),
{
    match name {
        SingleOrArray::Single(n) => {
            let r = vec![n.as_str()];
            assert(str_views(r@) =~= string_views(name.items()));
            r
        },
        SingleOrArray::Array(ns) => {
            let mut r: Vec<&str> = Vec::new();
            let mut i: usize = 0;
            while i < ns.len()
                invariant
                    i <= ns.len(),
                    str_views(r@) =~= string_views(ns@.take(i as int)),
                decreases ns.len() - i,
            {
                let ghost old_r = r@;
                r.push(ns[i].as_str());
                assert(ns@.take(i + 1) =~= ns@.take(i as int).push(ns@[i as int]));
                assert(str_views(r@) =~= str_views(old_r).push(ns@[i as int]@));
                assert(str_views(r@) =~= string_views(ns@.take(i + 1)));
                i += 1;
            }
            assert(ns@.take(ns.len() as int) =~= ns@);
            r
        },
    }
}

/// The first name of a name list, or the empty string.
pub fn name_primary(name: &SingleOrArray<String>) -> (r: &str)
    ensures
        r@ == first_or_empty(string_views(name.items())),
{
    match name {
        SingleOrArray::Single(n) => n.as_str(),
        SingleOrArray::Array(ns) => {
            if ns.len() > 0 {
                ns[0].as_str()
            } else {
                let e = "";
                proof {
                    reveal_strlit("");
                }
                e
            }
        },
    }
}

/// Type of a suggestion; decides the icon shown.
#[derive(Debug, Clone, Copy, PartialEq, Eq, Structural)]
pub enum SuggestionType {
    Folder,
    File,
    Arg,
    Subcommand,
    Option,
    Special,
    Mixin,
    Shortcut,
}

/// Built-in suggestion generators.
#[derive(Debug, Clone, Copy, PartialEq, Eq, Structural)]
pub enum TemplateString {
    Filepaths,
    Folders,
    History,
    Help,
}

pub type Template = SingleOrArray<TemplateString>;

/// How suggestions are filtered against the typed token.
#[derive(Debug, Clone, Copy, PartialEq, Eq, Structural)]
pub enum FilterStrategy {
    Fuzzy,
    Prefix,
    Default,
}

/// A completion suggestion as written in a spec.
#[derive(Debug, Clone, PartialEq)]
pub struct Suggestion {
    pub name: Option<SingleOrArray<String>>,
    pub display_name: Option<String>,
    pub insert_value: Option<String>,
    pub description: Option<String>,
    pub icon: Option<String>,
    pub priority: Option<u8>,
    pub suggestion_type: Option<SuggestionType>,
    pub hidden: bool,
    pub is_dangerous: bool,
}

/// The script of a generator: a command with its arguments, a shell
/// command line, or a JavaScript function that cannot run here.
#[derive(Debug, Clone, PartialEq)]
pub enum GeneratorScript {
    Command(Vec<String>),
    Shell(String),
    Function(Box<serde_json::Value>),
}

/// A dynamic suggestion generator: templates expand over the directory
/// listing, and a runnable script's output becomes suggestions.
#[derive(Debug, Clone, PartialEq)]
pub struct Generator {
    pub template: Option<Template>,
    pub script: Option<GeneratorScript>,
    pub split_on: Option<String>,
    pub script_timeout: Option<u64>,
    pub custom: Option<serde_json::Value>,
    pub post_process: Option<serde_json::Value>,
    pub trigger: Option<serde_json::Value>,
    pub get_query_term: Option<serde_json::Value>,
}

/// A positional argument definition.
#[derive(Debug, Clone, PartialEq)]
pub struct Arg {
    pub name: Option<String>,
    pub description: Option<String>,
    pub suggestions: Option<Vec<SuggestionOrString>>,
    pub template: Option<Template>,
    pub generators: Option<SingleOrArray<Generator>>,
    pub filter_strategy: Option<FilterStrategy>,
    pub is_optional: bool,
    pub is_variadic: bool,
    pub is_command: bool,
    pub is_dangerous: bool,
    pub default: Option<String>,
    pub debounce: bool,
    pub options_can_break_variadic_arg: Option<bool>,
    pub suggest_current_token: bool,
    pub load_spec: Option<serde_json::Value>,
}

/// A suggestion written either as a bare string or as a full object.
#[derive(Debug, Clone, PartialEq)]
pub enum SuggestionOrString {
    String(String),
    Suggestion(Suggestion),
}

/// The suggestion with only a name, every other field at its default.
pub open spec fn named_suggestion(s: String) -> Suggestion {
    Suggestion {
        name: Some(SingleOrArray::Single(s)),
        display_name: None,
        insert_value: None,
        description: None,
        icon: None,
        priority: None,
        suggestion_type: None,
        hidden: false,
        is_dangerous: false,
    }
}

impl SuggestionOrString {
    /// The full suggestion this entry denotes.
    pub open spec fn as_suggestion(self) -> Suggestion {
        match self {
            SuggestionOrString::String(s) => named_suggestion(s),
            SuggestionOrString::Suggestion(s) => s,
        }
    }

    /// Normalize to a full Suggestion.
    pub fn into_suggestion(self) -> (r: Suggestion)
        ensures
            r == self.as_suggestion(),
    {
        match self {
            SuggestionOrString::String(s) => Suggestion {
                name: Some(SingleOrArray::Single(s)),
                display_name: None,
                insert_value: None,
                description: None,
                icon: None,
                priority: None,
                suggestion_type: None,
                hidden: false,
                is_dangerous: false,
            },
            SuggestionOrString::Suggestion(s) => s,
        }
    }
}

impl Default for FilterStrategy {
    fn default() -> (r: Self)
        ensures
            r == FilterStrategy::Default,
    {
        FilterStrategy::Default
    }
}

impl Default for Suggestion {
    /// The suggestion with every field unset.
    fn default() -> (r: Self)
        ensures
            r.name is None,
            r.display_name is None,
            r.insert_value is None,
            r.description is None,
            r.icon is None,
            r.priority is None,
            r.suggestion_type is None,
            !r.hidden,
            !r.is_dangerous,
    {
        Suggestion {
            name: None,
            display_name: None,
            insert_value: None,
            description: None,
            icon: None,
            priority: None,
            suggestion_type: None,
            hidden: false,
            is_dangerous: false,
        }
    }
}

impl Default for Generator {
    /// The generator with every field unset.
    fn default() -> (r: Self)
        ensures
            r.template is None,
            r.script is None,
            r.split_on is None,
            r.script_timeout is None,
            r.custom is None,
            r.post_process is None,
            r.trigger is None,
            r.get_query_term is None,
    {
        Generator {
            template: None,
            script: None,
            split_on: None,
            script_timeout: None,
            custom: None,
            post_process: None,
            trigger: None,
            get_query_term: None,
        }
    }
}

impl Default for Arg {
    /// The argument with every field unset.
    fn default() -> (r: Self)
        ensures
            r.name is None,
            r.description is None,
            r.suggestions is None,
            r.template is None,
            r.generators is None,
            r.filter_strategy is None,
            !r.is_optional,
            !r.is_variadic,
            !r.is_command,
            !r.is_dangerous,
            r.default is None,
            !r.debounce,
            r.options_can_break_variadic_arg is None,
            !r.suggest_current_token,
            r.load_spec is None,
    {
        Arg {
            name: None,
            description: None,
            suggestions: None,
            template: None,
            generators: None,
            filter_strategy: None,
            is_optional: false,
            is_variadic: false,
            is_command: false,
            is_dangerous: false,
            default: None,
            debounce: false,
            options_can_break_variadic_arg: None,
            suggest_current_token: false,
            load_spec: None,
        }
    }
}

impl Default for ParserDirectives {
    /// POSIX-style flags, options anywhere, no separators.
    fn default() -> (r: Self)
        ensures
            !r.flags_are_posix_noncompliant,
            !r.options_must_precede_arguments,
            r.option_arg_separators is None,
    {
        ParserDirectives {
            flags_are_posix_noncompliant: false,
            options_must_precede_arguments: false,
            option_arg_separators: None,
        }
    }
}

/// A CLI option/flag definition.
#[derive(Debug, Clone, PartialEq)]
pub struct Opt {
    pub name: SingleOrArray<String>,
    pub display_name: Option<String>,
    pub insert_value: Option<String>,
    pub description: Option<String>,
    pub icon: Option<String>,
    pub priority: Option<u8>,
    pub args: Option<SingleOrArray<Arg>>,
    pub is_persistent: bool,
    pub is_required: bool,
    pub requires_equals: bool,
    pub requires_separator: Option<serde_json::Value>,
    pub is_repeatable: Option<serde_json::Value>,
    pub exclusive_on: Option<Vec<String>>,
    pub depends_on: Option<Vec<String>>,
    pub hidden: bool,
    pub is_dangerous: bool,
    pub deprecated: Option<serde_json::Value>,
}

/// Parser configuration of a subcommand.
#[derive(Debug, Clone, PartialEq)]
pub struct ParserDirectives {
    pub flags_are_posix_noncompliant: bool,
    pub options_must_precede_arguments: bool,
    pub option_arg_separators: Option<SingleOrArray<String>>,
}

/// A subcommand definition; the top-level spec is a subcommand too.
#[derive(Debug, PartialEq)]
pub struct Subcommand {
    pub name: SingleOrArray<String>,
    pub display_name: Option<String>,
    pub insert_value: Option<String>,
    pub description: Option<String>,
    pub icon: Option<String>,
    pub priority: Option<u8>,
    pub subcommands: Option<Vec<Subcommand>>,
    pub requires_subcommand: bool,
    pub options: Option<Vec<Opt>>,
    pub args: Option<SingleOrArray<Arg>>,
    pub filter_strategy: Option<FilterStrategy>,
    pub additional_suggestions: Option<Vec<SuggestionOrString>>,
    pub load_spec: Option<serde_json::Value>,
    pub generate_spec: Option<serde_json::Value>,
    pub parser_directives: Option<ParserDirectives>,
    pub cache: Option<bool>,
    pub hidden: bool,
    pub is_dangerous: bool,
    pub deprecated: Option<serde_json::Value>,
}

/// A copy of a subcommand and, in turn, of its subcommands.
fn clone_subcommand(s: &Subcommand) -> (r: Subcommand)
    decreases s,
{
    let subcommands = match &s.subcommands {
        Some(subs) => {
            let mut v: Vec<Subcommand> = Vec::new();
            let mut i: usize = 0;
            while i < subs.len()
                invariant
                    i <= subs@.len(),
                    s.subcommands == Some(*subs),
                decreases subs.len() - i,
            {
                proof {
                    let o = s.subcommands;
                    let vs = o->0;
                    assert(decreases_to!(*s => o));
                    assert(decreases_to!(o => vs));
                    assert(decreases_to!(vs => vs@));
                    assert(decreases_to!(vs@ => vs@[i as int]));
                    assert(decreases_to!(*s => subs@[i as int]));
                }
                v.push(clone_subcommand(&subs[i]));
                i += 1;
            }
            Some(v)
        },
        None => None,
    };
    Subcommand {
        name: s.name.clone(),
        display_name: s.display_name.clone(),
        insert_value: s.insert_value.clone(),
        description: s.description.clone(),
        icon: s.icon.clone(),
        priority: s.priority,
        subcommands,
        requires_subcommand: s.requires_subcommand,
        options: s.options.clone(),
        args: s.args.clone(),
        filter_strategy: s.filter_strategy,
        additional_suggestions: s.additional_suggestions.clone(),
        load_spec: s.load_spec.clone(),
        generate_spec: s.generate_spec.clone(),
        parser_directives: s.parser_directives.clone(),
        cache: s.cache,
        hidden: s.hidden,
        is_dangerous: s.is_dangerous,
        deprecated: s.deprecated.clone(),
    }
}

impl Clone for Subcommand {
    fn clone(&self) -> (r: Self) {
        clone_subcommand(self)
    }
}

/// A complete completion spec: the top-level subcommand of a tool.
pub type Spec = Subcommand;

impl Subcommand {
    /// All names (primary and aliases), as character sequences.
    pub open spec fn name_views(&self) -> Seq<Seq<char>> {
        string_views(self.name.items())
    }

    /// Get all names (primary + aliases).
    pub fn names(&self) -> (r: Vec<&str>)
        ensures
            str_views(r@) == self.name_views(),
    {
        name_strs(&self.name)
    }

    /// Get the primary (first) name, or the empty string.
    pub fn primary_name(&self) -> (r: &str)
        ensures
            r@ == first_or_empty(self.name_views()),
    {
        name_primary(&self.name)
    }
}

impl Opt {
    /// All names (e.g. `-m` and `--message`), as character sequences.
    pub open spec fn name_views(&self) -> Seq<Seq<char>> {
        string_views(self.name.items())
    }

    /// Get all names (e.g. ["-m", "--message"]).
    pub fn names(&self) -> (r: Vec<&str>)
        ensures
            str_views(r@) == self.name_views(),
    {
        name_strs(&self.name)
    }

    /// Get the primary (first) name, or the empty string.
    pub fn primary_name(&self) -> (r: &str)
        ensures
            r@ == first_or_empty(self.name_views()),
    {
        name_primary(&self.name)
    }

    /// The long-form name if there is one (starts with `--`), else the
    /// primary name.
    pub fn long_name(&self) -> (r: Option<&str>)
        ensures
            r matches Some(s) && s@ == long_or_primary(self.name_views()),
    {
        match self.first_long() {
            Some(l) => Some(l),
            None => Some(self.primary_name()),
        }
    }

    /// The first name that starts with `--`, if any.
    fn first_long(&self) -> (r: Option<&str>)
        ensures
            match r {
                Some(s) => first_long_name(self.name_views()) == Some(s@),
                None => first_long_name(self.name_views()) is None,
            },
    {
        match &self.name {
            SingleOrArray::Single(n) => {
                proof {
                    reveal_with_fuel(first_long_name, 2);
                }
                if starts_with_long_prefix(n.as_str()) {
                    Some(n.as_str())
                } else {
                    None
                }
            },
            SingleOrArray::Array(ns) => {
                let mut i: usize = 0;
                assert(string_views(ns@).skip(0) =~= string_views(ns@));
                while i < ns.len()
                    invariant
                        i <= ns.len(),
                        self.name_views() == string_views(ns@),
                        first_long_name(string_views(ns@)) == first_long_name(
                            string_views(ns@).skip(i as int),
                        ),
                    decreases ns.len() - i,
                {
                    let s = ns[i].as_str();
                    if starts_with_long_prefix(s) {
                        assert(string_views(ns@).skip(i as int)[0] == s@);
                        return Some(s);
                    }
                    assert(string_views(ns@).skip(i as int).drop_first() =~= string_views(
                        ns@,
                    ).skip(i + 1));
                    i += 1;
                }
                None
            },
        }
    }
}

} // verus!
