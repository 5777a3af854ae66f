//! The command-line surface: the command tree, the code-generation option
//! group with its one-of-each and dependency rules, and the parsers that
//! turn option text into group values.
//!
//! Argument tokenization itself is the command-line shell's work; the rules
//! for what the tokens mean live here.

use vstd::prelude::*;

use crate::js_config::{
    lookup, lookup_value, name_supported, JsConfig, JsConfigProperty, JsOptionValue,
};
use crate::text::{digits_val, parses_as_u64, str_eq, unsigned_body};

verus! {

broadcast use vstd::string::group_string_axioms;

/// The boolean option values `y` and `n` are distinct.
proof fn lemma_y_ne_n()
    ensures
        "y"@ != "n"@,
{
    reveal_strlit("y");
    reveal_strlit("n");
    assert("y"@.len() == 1);
    assert("y"@[0] == 'y');
    assert("n"@[0] == 'n');
}

/// The toolchain's command tree.
pub struct Cli {
    pub command: Command,
}

pub enum Command {
    /// Compiles JavaScript to WebAssembly (deprecated; use `Build`).
    Compile(CompileCommandOpts),
    /// Generates WebAssembly from a JavaScript source.
    Build(BuildCommandOpts),
    /// Emits the plugin binary that is required to run dynamically linked
    /// WebAssembly modules.
    EmitPlugin(EmitPluginCommandOpts),
    /// Initializes a plugin binary.
    InitPlugin(InitPluginCommandOpts),
}

pub struct CompileCommandOpts {
    /// Path of the JavaScript input file.
    pub input: String,
    /// Desired path of the WebAssembly output file.
    pub output: String,
    /// Whether to create a smaller module that requires a dynamically
    /// linked plugin module to execute.
    pub dynamic: bool,
    /// Optional path to a WIT file describing exported functions.
    pub wit: Option<String>,
    /// Optional WIT world name; must be given when a WIT file is.
    pub wit_world: Option<String>,
    /// Disable source code compression.
    pub no_source_compression: bool,
}

pub struct BuildCommandOpts {
    /// Path of the JavaScript input file.
    pub input: Option<String>,
    /// Desired path of the WebAssembly output file.
    pub output: String,
    /// Code generation options.
    pub codegen: Vec<GroupOption<CodegenOption>>,
    /// JavaScript runtime options.
    pub js: Vec<JsGroupValue>,
}

pub struct EmitPluginCommandOpts {
    /// Output path for the plugin binary (default is stdout).
    pub out: Option<String>,
}

pub struct InitPluginCommandOpts {
    /// Path to the plugin to initialize.
    pub plugin: String,
    /// Output path for the initialized plugin binary (default is stdout).
    pub out: Option<String>,
}

/// The options one occurrence of a grouped argument carries.
pub struct GroupOption<T>(pub Vec<T>);

/// One code generation option.
pub enum CodegenOption {
    /// Creates a smaller module that requires a dynamically linked plugin
    /// module to execute.
    Dynamic(bool),
    /// Optional path to a WIT file describing exported functions.
    Wit(String),
    /// Optional WIT world name; must be given when a WIT file is.
    WitWorld(String),
    /// Enable source code compression.
    SourceCompression(bool),
    /// Optional path to a plugin module; required for dynamically linked
    /// modules.
    Plugin(String),
}

/// Spec-level equality of optional strings by their characters.
pub open spec fn opt_string_eq(a: Option<String>, b: Option<String>) -> bool {
    match (a, b) {
        (Option::None, Option::None) => true,
        (Option::Some(x), Option::Some(y)) => x@ == y@,
        _ => false,
    }
}

/// The WIT file and world name to generate typed exports from.
#[derive(Debug)]
pub struct WitOptions {
    pub path: Option<String>,
    pub world: Option<String>,
}

impl Default for WitOptions {
    fn default() -> (w: WitOptions)
        ensures
            w.path is None,
            w.world is None,
    {
        WitOptions { path: None, world: None }
    }
}

impl PartialEq for WitOptions {
    fn eq(&self, other: &WitOptions) -> bool {
        opt_str_eq(&self.path, &other.path) && opt_str_eq(&self.world, &other.world)
    }
}

impl vstd::std_specs::cmp::PartialEqSpecImpl for WitOptions {
    open spec fn obeys_eq_spec() -> bool {
        true
    }

    open spec fn eq_spec(&self, other: &WitOptions) -> bool {
        opt_string_eq(self.path, other.path) && opt_string_eq(self.world, other.world)
    }
}

/// Whether two optional strings hold the same characters.
fn opt_str_eq(a: &Option<String>, b: &Option<String>) -> (r: bool)
    ensures
        r == opt_string_eq(*a, *b),
{
    match (a, b) {
        (Option::None, Option::None) => true,
        (Option::Some(x), Option::Some(y)) => str_eq(x.as_str(), y.as_str()),
        _ => false,
    }
}

/// The code generation option group, assembled from the raw options.
#[derive(Debug)]
pub struct CodegenOptionGroup {
    pub dynamic: bool,
    pub wit: WitOptions,
    pub source_compression: bool,
    pub plugin: Option<String>,
}

impl Default for CodegenOptionGroup {
    fn default() -> (g: CodegenOptionGroup)
        ensures
            !g.dynamic,
            g.wit.path is None,
            g.wit.world is None,
            g.source_compression,
            g.plugin is None,
    {
        CodegenOptionGroup {
            dynamic: false,
            wit: WitOptions { path: None, world: None },
            source_compression: true,
            plugin: None,
        }
    }
}

impl PartialEq for CodegenOptionGroup {
    fn eq(&self, other: &CodegenOptionGroup) -> bool {
        self.dynamic == other.dynamic && self.wit == other.wit && self.source_compression
            == other.source_compression && opt_str_eq(&self.plugin, &other.plugin)
    }
}

impl vstd::std_specs::cmp::PartialEqSpecImpl for CodegenOptionGroup {
    open spec fn obeys_eq_spec() -> bool {
        true
    }

    open spec fn eq_spec(&self, other: &CodegenOptionGroup) -> bool {
        &&& self.dynamic == other.dynamic
        &&& opt_string_eq(self.wit.path, other.wit.path)
        &&& opt_string_eq(self.wit.world, other.wit.world)
        &&& self.source_compression == other.source_compression
        &&& opt_string_eq(self.plugin, other.plugin)
    }
}

/// Rejecting a code generation option list.
#[derive(Debug)]
pub enum CodegenOptionError {
    DynamicTwice,
    WitTwice,
    WitWorldTwice,
    SourceCompressionTwice,
    PluginTwice,
    WitWorldMissing,
    DynamicRequiresPlugin,
    UnknownOption,
    InvalidOptionValue,
}

/// The message each code generation error carries.
pub open spec fn codegen_error_text(e: CodegenOptionError) -> Seq<char> {
    match e {
        CodegenOptionError::DynamicTwice => "dynamic can only be specified once"@,
        CodegenOptionError::WitTwice => "wit can only be specified once"@,
        CodegenOptionError::WitWorldTwice => "wit-world can only be specified once"@,
        CodegenOptionError::SourceCompressionTwice => "source-compression can only be specified once"@,
        CodegenOptionError::PluginTwice => "plugin can only be specified once"@,
        CodegenOptionError::WitWorldMissing => "Must provide WIT world when providing WIT file"@,
        CodegenOptionError::DynamicRequiresPlugin => "Must specify plugin when using dynamic linking"@,
        CodegenOptionError::UnknownOption => "invalid codegen option"@,
        CodegenOptionError::InvalidOptionValue => "invalid codegen option value"@,
    }
}

impl CodegenOptionError {
    pub fn message(&self) -> (r: String)
        ensures
            r@ == codegen_error_text(*self),
    {
        match self {
            CodegenOptionError::DynamicTwice => String::from_str(
                "dynamic can only be specified once",
            ),
            CodegenOptionError::WitTwice => String::from_str("wit can only be specified once"),
            CodegenOptionError::WitWorldTwice => String::from_str(
                "wit-world can only be specified once",
            ),
            CodegenOptionError::SourceCompressionTwice => String::from_str(
                "source-compression can only be specified once",
            ),
            CodegenOptionError::PluginTwice => String::from_str(
                "plugin can only be specified once",
            ),
            CodegenOptionError::WitWorldMissing => String::from_str(
                "Must provide WIT world when providing WIT file",
            ),
            CodegenOptionError::DynamicRequiresPlugin => String::from_str(
                "Must specify plugin when using dynamic linking",
            ),
            CodegenOptionError::UnknownOption => String::from_str("invalid codegen option"),
            CodegenOptionError::InvalidOptionValue => String::from_str(
                "invalid codegen option value",
            ),
        }
    }
}

/// Running state while the raw options are folded into a group.
pub struct CodegenAcc {
    pub dynamic: bool,
    pub source_compression: bool,
    pub plugin: Option<String>,
    pub wit: Option<String>,
    pub wit_world: Option<String>,
    pub dynamic_specified: bool,
    pub wit_specified: bool,
    pub wit_world_specified: bool,
    pub source_compression_specified: bool,
    pub plugin_specified: bool,
}

/// The fold's starting state: the group's defaults, nothing specified yet.
pub open spec fn initial_codegen_acc() -> CodegenAcc {
    CodegenAcc {
        dynamic: false,
        source_compression: true,
        plugin: None,
        wit: None,
        wit_world: None,
        dynamic_specified: false,
        wit_specified: false,
        wit_world_specified: false,
        source_compression_specified: false,
        plugin_specified: false,
    }
}

/// One option applied to the running state: each option may be specified at
/// most once.
pub open spec fn apply_codegen_option(acc: CodegenAcc, o: CodegenOption) -> Result<
    CodegenAcc,
    CodegenOptionError,
> {
    match o {
        CodegenOption::Dynamic(enabled) => {
            if acc.dynamic_specified {
                Err(CodegenOptionError::DynamicTwice)
            } else {
                Ok(CodegenAcc { dynamic: enabled, dynamic_specified: true, ..acc })
            }
        },
        CodegenOption::Wit(path) => {
            if acc.wit_specified {
                Err(CodegenOptionError::WitTwice)
            } else {
                Ok(CodegenAcc { wit: Some(path), wit_specified: true, ..acc })
            }
        },
        CodegenOption::WitWorld(world) => {
            if acc.wit_world_specified {
                Err(CodegenOptionError::WitWorldTwice)
            } else {
                Ok(CodegenAcc { wit_world: Some(world), wit_world_specified: true, ..acc })
            }
        },
        CodegenOption::SourceCompression(enabled) => {
            if acc.source_compression_specified {
                Err(CodegenOptionError::SourceCompressionTwice)
            } else {
                Ok(
                    CodegenAcc {
                        source_compression: enabled,
                        source_compression_specified: true,
                        ..acc
                    },
                )
            }
        },
        CodegenOption::Plugin(path) => {
            if acc.plugin_specified {
                Err(CodegenOptionError::PluginTwice)
            } else {
                Ok(CodegenAcc { plugin: Some(path), plugin_specified: true, ..acc })
            }
        },
    }
}

/// All raw options of all group occurrences, in order.
pub open spec fn flatten_groups(gs: Seq<GroupOption<CodegenOption>>) -> Seq<CodegenOption>
    decreases gs.len(),
{
    if gs.len() == 0 {
        Seq::empty()
    } else {
        gs[0].0@ + flatten_groups(gs.drop_first())
    }
}

/// The whole option list folded, stopping at the first error.
pub open spec fn fold_codegen(opts: Seq<CodegenOption>, acc: CodegenAcc) -> Result<
    CodegenAcc,
    CodegenOptionError,
>
    decreases opts.len(),
{
    if opts.len() == 0 {
        Ok(acc)
    } else {
        match apply_codegen_option(acc, opts[0]) {
            Err(e) => Err(e),
            Ok(a2) => fold_codegen(opts.drop_first(), a2),
        }
    }
}

/// The WIT options a (file, world) pair yields: a file requires a world; a
/// world alone is ignored.
pub open spec fn wit_options_of(path: Option<String>, world: Option<String>) -> Result<
    WitOptions,
    CodegenOptionError,
> {
    match (path, world) {
        (Option::Some(_), Option::None) => Err(CodegenOptionError::WitWorldMissing),
        (Option::Some(p), Option::Some(w)) => Ok(WitOptions { path: Some(p), world: Some(w) }),
        (Option::None, _) => Ok(WitOptions { path: None, world: None }),
    }
}

/// The group the raw option lists denote, or the first error: options folded
/// in order, then the WIT pairing rule, then the dynamic-linking dependency
/// (a dynamically linked module needs a plugin to derive its import
/// namespace from).
pub open spec fn codegen_group_result(gs: Seq<GroupOption<CodegenOption>>) -> Result<
    CodegenOptionGroup,
    CodegenOptionError,
> {
    match fold_codegen(flatten_groups(gs), initial_codegen_acc()) {
        Err(e) => Err(e),
        Ok(acc) => match wit_options_of(acc.wit, acc.wit_world) {
            Err(e) => Err(e),
            Ok(w) => {
                if acc.dynamic && acc.plugin is None {
                    Err(CodegenOptionError::DynamicRequiresPlugin)
                } else {
                    Ok(
                        CodegenOptionGroup {
                            dynamic: acc.dynamic,
                            wit: w,
                            source_compression: acc.source_compression,
                            plugin: acc.plugin,
                        },
                    )
                }
            },
        },
    }
}

impl WitOptions {
    /// Pair an optional WIT file with an optional world name.
    pub fn from_tuple(opts: (Option<String>, Option<String>)) -> (r: Result<
        WitOptions,
        CodegenOptionError,
    >)
        ensures
            r == wit_options_of(opts.0, opts.1),
    {
        match opts {
            (Option::Some(_), Option::None) => Err(CodegenOptionError::WitWorldMissing),
            (Option::Some(p), Option::Some(w)) => Ok(
                WitOptions { path: Some(p), world: Some(w) },
            ),
            (Option::None, _) => Ok(WitOptions { path: None, world: None }),
        }
    }
}

impl CodegenOptionGroup {
    /// Assemble the group from the raw option lists, rejecting repeated
    /// options, a WIT file without a world, and dynamic linking without a
    /// plugin.
    #[verifier::loop_isolation(false)]
    pub fn try_from(value: Vec<GroupOption<CodegenOption>>) -> (r: Result<
        CodegenOptionGroup,
        CodegenOptionError,
    >)
        ensures
            r == codegen_group_result(value@),
    {
        let ghost gs0 = value@;
        let ghost target = fold_codegen(flatten_groups(gs0), initial_codegen_acc());
        let mut groups = value;
        let mut acc = CodegenAcc {
            dynamic: false,
            source_compression: true,
            plugin: None,
            wit: None,
            wit_world: None,
            dynamic_specified: false,
            wit_specified: false,
            wit_world_specified: false,
            source_compression_specified: false,
            plugin_specified: false,
        };
        proof {
            assert(acc == initial_codegen_acc());
        }
        while groups.len() > 0
            invariant
                fold_codegen(flatten_groups(groups@), acc) == target,
            decreases groups@.len(),
        {
            let ghost gs = groups@;
            let group = groups.remove(0);
            proof {
                assert(gs.drop_first() =~= groups@);
                assert(flatten_groups(gs) == group.0@ + flatten_groups(groups@));
            }
            let mut opts = group.0;
            while opts.len() > 0
                invariant
                    fold_codegen(opts@ + flatten_groups(groups@), acc) == target,
                decreases opts@.len(),
            {
                let ghost os = opts@;
                let ghost rest = flatten_groups(groups@);
                let o = opts.remove(0);
                proof {
                    assert((os + rest)[0] == o);
                    assert((os + rest).drop_first() =~= opts@ + rest);
                }
                let ghost acc0 = acc;
                match o {
                    CodegenOption::Dynamic(enabled) => {
                        if acc.dynamic_specified {
                            return Err(CodegenOptionError::DynamicTwice);
                        }
                        acc.dynamic = enabled;
                        acc.dynamic_specified = true;
                    },
                    CodegenOption::Wit(path) => {
                        if acc.wit_specified {
                            return Err(CodegenOptionError::WitTwice);
                        }
                        acc.wit = Some(path);
                        acc.wit_specified = true;
                    },
                    CodegenOption::WitWorld(world) => {
                        if acc.wit_world_specified {
                            return Err(CodegenOptionError::WitWorldTwice);
                        }
                        acc.wit_world = Some(world);
                        acc.wit_world_specified = true;
                    },
                    CodegenOption::SourceCompression(enabled) => {
                        if acc.source_compression_specified {
                            return Err(CodegenOptionError::SourceCompressionTwice);
                        }
                        acc.source_compression = enabled;
                        acc.source_compression_specified = true;
                    },
                    CodegenOption::Plugin(path) => {
                        if acc.plugin_specified {
                            return Err(CodegenOptionError::PluginTwice);
                        }
                        acc.plugin = Some(path);
                        acc.plugin_specified = true;
                    },
                }
                proof {
                    assert(apply_codegen_option(acc0, (os + rest)[0]) == Ok::<
                        CodegenAcc,
                        CodegenOptionError,
                    >(acc));
                }
            }
            proof {
                assert(opts@ + flatten_groups(groups@) =~= flatten_groups(groups@));
            }
        }
        proof {
            assert(flatten_groups(groups@) =~= Seq::<CodegenOption>::empty());
            assert(target == Ok::<CodegenAcc, CodegenOptionError>(acc));
        }
        let CodegenAcc { dynamic, source_compression, plugin, wit, wit_world, .. } = acc;
        let wit_options = match WitOptions::from_tuple((wit, wit_world)) {
            Ok(w) => w,
            Err(e) => {
                return Err(e);
            },
        };
        if dynamic && plugin.is_none() {
            return Err(CodegenOptionError::DynamicRequiresPlugin);
        }
        Ok(
            CodegenOptionGroup {
                dynamic,
                wit: wit_options,
                source_compression,
                plugin,
            },
        )
    }
}

/// Index of the first occurrence of `c` in `s`, or the length when absent.
pub open spec fn char_pos(s: Seq<char>, c: char) -> int
    decreases s.len(),
{
    if s.len() == 0 {
        0
    } else if s[0] == c {
        0
    } else {
        1 + char_pos(s.drop_first(), c)
    }
}

/// `char_pos` is in range, points at `c`, and nothing before it is `c`.
pub proof fn lemma_char_pos_first(s: Seq<char>, c: char)
    ensures
        0 <= char_pos(s, c) <= s.len(),
        forall|j: int| 0 <= j < char_pos(s, c) ==> s[j] != c,
        char_pos(s, c) < s.len() ==> s[char_pos(s, c)] == c,
    decreases s.len(),
{
    if s.len() > 0 && s[0] != c {
        lemma_char_pos_first(s.drop_first(), c);
        assert forall|j: int| 0 <= j < char_pos(s, c) implies s[j] != c by {
            if j > 0 {
                assert(s.drop_first()[j - 1] == s[j]);
            }
        }
        if char_pos(s, c) < s.len() {
            assert(s.drop_first()[char_pos(s, c) - 1] == s[char_pos(s, c)]);
        }
    }
}

/// Any in-range index with nothing equal to `c` before it, and `c` (or the
/// end) at it, is `char_pos`.
pub proof fn lemma_char_pos_unique(s: Seq<char>, c: char, k: int)
    requires
        0 <= k <= s.len(),
        forall|j: int| 0 <= j < k ==> s[j] != c,
        k < s.len() ==> s[k] == c,
    ensures
        k == char_pos(s, c),
    decreases s.len(),
{
    if s.len() > 0 && s[0] != c {
        assert(k != 0);
        assert(forall|j: int| 0 <= j < s.len() - 1 ==> #[trigger] s.drop_first()[j] == s[j + 1]);
        lemma_char_pos_unique(s.drop_first(), c, k - 1);
    } else if s.len() > 0 {
        assert(k == 0) by {
            if k > 0 {
                assert(s[0] != c);
            }
        }
    }
}

/// Index of the first occurrence of `c`, or the length when absent.
fn find_char(s: &str, c: char) -> (i: usize)
    ensures
        i as int == char_pos(s@, c),
        i <= s@.len(),
{
    let len = s.unicode_len();
    let mut i: usize = 0;
    while i < len
        invariant
            i <= len,
            len == s@.len(),
            forall|j: int| 0 <= j < i ==> s@[j] != c,
        decreases len - i,
    {
        if s.get_char(i) == c {
            proof {
                lemma_char_pos_unique(s@, c, i as int);
            }
            return i;
        }
        i = i + 1;
    }
    proof {
        lemma_char_pos_unique(s@, c, i as int);
    }
    i
}

/// The option text before the first `=`, or all of it.
pub open spec fn opt_key(s: Seq<char>) -> Seq<char> {
    s.take(char_pos(s, '='))
}

/// Whether the option text carries a `=value` part.
pub open spec fn opt_has_value(s: Seq<char>) -> bool {
    char_pos(s, '=') < s.len()
}

/// The option text after the first `=` (meaningful when present).
pub open spec fn opt_value(s: Seq<char>) -> Seq<char> {
    s.skip(char_pos(s, '=') + 1)
}

/// A comma-separated string's pieces, in order; the empty string is one
/// empty piece.
pub open spec fn split_commas_spec(s: Seq<char>) -> Seq<Seq<char>>
    decreases s.len(),
{
    if s.len() == 0 {
        seq![Seq::<char>::empty()]
    } else if s[0] == ',' {
        seq![Seq::<char>::empty()] + split_commas_spec(s.drop_first())
    } else {
        let rest = split_commas_spec(s.drop_first());
        seq![seq![s[0]] + rest[0]] + rest.drop_first()
    }
}

/// The pieces are the text up to the first comma, then the split of what
/// follows it.
pub proof fn lemma_split_at_comma(s: Seq<char>)
    ensures
        split_commas_spec(s).len() >= 1,
        char_pos(s, ',') == s.len() ==> split_commas_spec(s) == seq![s],
        char_pos(s, ',') < s.len() ==> split_commas_spec(s) == seq![s.take(char_pos(s, ','))]
            + split_commas_spec(s.skip(char_pos(s, ',') + 1)),
    decreases s.len(),
{
    lemma_char_pos_first(s, ',');
    if s.len() == 0 {
        assert(s =~= Seq::<char>::empty());
        assert(split_commas_spec(s) =~= seq![s]);
    } else if s[0] == ',' {
        assert(s.take(0) =~= Seq::<char>::empty());
        assert(s.skip(1) =~= s.drop_first());
        assert(split_commas_spec(s) == seq![s.take(char_pos(s, ','))] + split_commas_spec(
            s.skip(char_pos(s, ',') + 1),
        ));
    } else {
        let d = s.drop_first();
        let rest = split_commas_spec(d);
        lemma_split_at_comma(d);
        let p = char_pos(s, ',');
        assert(p == 1 + char_pos(d, ','));
        if char_pos(d, ',') == d.len() {
            assert(rest == seq![d]);
            assert(seq![s[0]] + rest[0] =~= s);
            assert(rest.drop_first() =~= Seq::<Seq<char>>::empty());
            assert(split_commas_spec(s) =~= seq![s]);
        } else {
            let pd = char_pos(d, ',');
            assert(rest == seq![d.take(pd)] + split_commas_spec(d.skip(pd + 1)));
            assert(rest[0] == d.take(pd));
            assert(seq![s[0]] + d.take(pd) =~= s.take(p));
            assert(d.skip(pd + 1) =~= s.skip(p + 1));
            assert(rest.drop_first() =~= split_commas_spec(d.skip(pd + 1)));
            assert(split_commas_spec(s) =~= seq![s.take(p)] + split_commas_spec(s.skip(p + 1)));
        }
    }
}

/// Split a string at commas.
pub fn split_commas(s: &str) -> (pieces: Vec<String>)
    ensures
        pieces@.map_values(|p: String| p@) == split_commas_spec(s@),
    decreases s@.len(),
{
    proof {
        lemma_split_at_comma(s@);
        lemma_char_pos_first(s@, ',');
    }
    let len = s.unicode_len();
    let p = find_char(s, ',');
    if p >= len {
        let mut pieces: Vec<String> = Vec::new();
        pieces.push(s.to_owned());
        proof {
            assert(pieces@.map_values(|q: String| q@) =~= split_commas_spec(s@));
        }
        pieces
    } else {
        let head = s.substring_char(0, p).to_owned();
        let tail = s.substring_char(p + 1, len);
        proof {
            assert(tail@ == s@.skip(char_pos(s@, ',') + 1));
        }
        let mut pieces = split_commas(tail);
        pieces.insert(0, head);
        proof {
            assert(head@ =~= s@.take(char_pos(s@, ',')));
            assert(pieces@.map_values(|q: String| q@) =~= split_commas_spec(s@));
        }
        pieces
    }
}

/// Whether a piece of codegen option text is acceptable: a boolean option
/// with `y`, `n` or no value, or a valued option with a value.
pub open spec fn cg_ok(piece: Seq<char>) -> bool {
    let key = opt_key(piece);
    if key == "dynamic"@ || key == "source-compression"@ {
        !opt_has_value(piece) || opt_value(piece) == "y"@ || opt_value(piece) == "n"@
    } else if key == "wit"@ || key == "wit-world"@ || key == "plugin"@ {
        opt_has_value(piece)
    } else {
        false
    }
}

/// A boolean option is false exactly when set to `n`.
pub open spec fn cg_bool_val(piece: Seq<char>) -> bool {
    !(opt_has_value(piece) && opt_value(piece) == "n"@)
}

/// The option a piece of codegen option text denotes.
pub open spec fn cg_matches(o: CodegenOption, piece: Seq<char>) -> bool {
    match o {
        CodegenOption::Dynamic(b) => opt_key(piece) == "dynamic"@ && b == cg_bool_val(piece),
        CodegenOption::SourceCompression(b) => opt_key(piece) == "source-compression"@ && b
            == cg_bool_val(piece),
        CodegenOption::Wit(p) => opt_key(piece) == "wit"@ && opt_has_value(piece) && p@
            == opt_value(piece),
        CodegenOption::WitWorld(w) => opt_key(piece) == "wit-world"@ && opt_has_value(piece)
            && w@ == opt_value(piece),
        CodegenOption::Plugin(p) => opt_key(piece) == "plugin"@ && opt_has_value(piece) && p@
            == opt_value(piece),
    }
}

/// Parse one comma-free piece of codegen option text.
pub fn parse_codegen_option(piece: &str) -> (r: Result<CodegenOption, CodegenOptionError>)
    ensures
        r is Ok <==> cg_ok(piece@),
        r matches Ok(o) ==> cg_matches(o, piece@),
        r matches Err(e) ==> (e is UnknownOption || e is InvalidOptionValue),
{
    proof {
        lemma_char_pos_first(piece@, '=');
    }
    let len = piece.unicode_len();
    let p = find_char(piece, '=');
    let key = piece.substring_char(0, p).to_owned();
    proof {
        assert(key@ == opt_key(piece@));
    }
    let is_bool_opt = str_eq(key.as_str(), "dynamic") || str_eq(
        key.as_str(),
        "source-compression",
    );
    let is_valued_opt = str_eq(key.as_str(), "wit") || str_eq(key.as_str(), "wit-world")
        || str_eq(key.as_str(), "plugin");
    if is_bool_opt {
        let b = if p >= len {
            true
        } else {
            let value = piece.substring_char(p + 1, len);
            proof {
                assert(value@ == opt_value(piece@));
            }
            if str_eq(value, "y") {
                true
            } else if str_eq(value, "n") {
                false
            } else {
                return Err(CodegenOptionError::InvalidOptionValue);
            }
        };
        proof {
            lemma_y_ne_n();
        }
        if str_eq(key.as_str(), "dynamic") {
            Ok(CodegenOption::Dynamic(b))
        } else {
            Ok(CodegenOption::SourceCompression(b))
        }
    } else if is_valued_opt {
        if p >= len {
            return Err(CodegenOptionError::InvalidOptionValue);
        }
        let value = piece.substring_char(p + 1, len).to_owned();
        proof {
            assert(value@ == opt_value(piece@));
        }
        if str_eq(key.as_str(), "wit") {
            Ok(CodegenOption::Wit(value))
        } else if str_eq(key.as_str(), "wit-world") {
            Ok(CodegenOption::WitWorld(value))
        } else {
            Ok(CodegenOption::Plugin(value))
        }
    } else {
        Err(CodegenOptionError::UnknownOption)
    }
}

/// One occurrence of the codegen argument: the help request, or a group of
/// options.
pub enum CodegenGroupValue {
    Help,
    Group(GroupOption<CodegenOption>),
}

/// Parser for one comma-separated codegen argument.
pub struct GroupOptionParser;

impl GroupOptionParser {
    /// Parse one codegen argument: `help`, or comma-separated options.
    #[verifier::loop_isolation(false)]
    pub fn parse_ref(&self, value: &str) -> (r: Result<CodegenGroupValue, CodegenOptionError>)
        ensures
            r matches Ok(CodegenGroupValue::Help) <==> value@ == "help"@,
            value@ != "help"@ ==> ((r is Ok) <==> (forall|i: int|
                0 <= i < split_commas_spec(value@).len() ==> cg_ok(
                    #[trigger] split_commas_spec(value@)[i],
                ))),
            r matches Ok(CodegenGroupValue::Group(g)) ==> value@ != "help"@ && g.0@.len()
                == split_commas_spec(value@).len() && (forall|i: int|
                0 <= i < g.0@.len() ==> cg_matches(
                    #[trigger] g.0@[i],
                    split_commas_spec(value@)[i],
                )),
    {
        if str_eq(value, "help") {
            return Ok(CodegenGroupValue::Help);
        }
        let pieces = split_commas(value);
        let ghost sp = split_commas_spec(value@);
        let mut opts: Vec<CodegenOption> = Vec::new();
        let mut i: usize = 0;
        while i < pieces.len()
            invariant
                i <= pieces@.len(),
                pieces@.map_values(|p: String| p@) == sp,
                sp == split_commas_spec(value@),
                opts@.len() == i,
                forall|j: int| 0 <= j < i ==> cg_ok(#[trigger] sp[j]),
                forall|j: int| 0 <= j < i ==> cg_matches(#[trigger] opts@[j], sp[j]),
            decreases pieces@.len() - i,
        {
            proof {
                assert(pieces@.map_values(|p: String| p@)[i as int] == pieces@[i as int]@);
            }
            match parse_codegen_option(pieces[i].as_str()) {
                Ok(o) => {
                    opts.push(o);
                },
                Err(e) => {
                    proof {
                        assert(!cg_ok(sp[i as int]));
                    }
                    return Err(e);
                },
            }
            i = i + 1;
        }
        proof {
            assert(pieces@.len() == sp.len());
        }
        Ok(CodegenGroupValue::Group(GroupOption(opts)))
    }
}

/// A runtime config group value.
pub enum JsGroupValue {
    Opt(JsGroupOption),
    Help,
}

/// A runtime config group option.
pub struct JsGroupOption {
    /// The property name used for the option.
    pub name: String,
    /// The value of the config option.
    pub value: JsOptionValue,
}

/// Rejecting a malformed runtime config option.
#[derive(Debug)]
pub enum JsOptionParseError {
    InvalidValue,
}

/// Whether a runtime config option's text is acceptable: `wait-timeout-ms`
/// takes a number, everything else `y`, `n` or no value.
pub open spec fn js_value_ok(s: Seq<char>) -> bool {
    if opt_key(s) == "wait-timeout-ms"@ {
        opt_has_value(s) && parses_as_u64(opt_value(s))
    } else {
        !opt_has_value(s) || opt_value(s) == "y"@ || opt_value(s) == "n"@
    }
}

/// The value a runtime config option's text denotes (meaningful when
/// acceptable).
pub open spec fn js_parsed_value(s: Seq<char>) -> JsOptionValue {
    if opt_key(s) == "wait-timeout-ms"@ {
        JsOptionValue::Number(digits_val(unsigned_body(opt_value(s))) as u64)
    } else if opt_has_value(s) && opt_value(s) == "n"@ {
        JsOptionValue::Boolean(false)
    } else {
        JsOptionValue::Boolean(true)
    }
}

/// Parser for one runtime config argument.
pub struct JsGroupOptionParser;

impl JsGroupOptionParser {
    /// Parse one runtime config argument: `help`, or `name`, `name=y`,
    /// `name=n`, or `wait-timeout-ms=<milliseconds>`.
    pub fn parse_ref(&self, value: &str) -> (r: Result<JsGroupValue, JsOptionParseError>)
        ensures
            r matches Ok(JsGroupValue::Help) <==> value@ == "help"@,
            value@ != "help"@ ==> ((r is Ok) <==> js_value_ok(value@)),
            r matches Ok(JsGroupValue::Opt(o)) ==> value@ != "help"@ && o.name@ == opt_key(
                value@,
            ) && o.value == js_parsed_value(value@),
    {
        if str_eq(value, "help") {
            return Ok(JsGroupValue::Help);
        }
        proof {
            lemma_char_pos_first(value@, '=');
            lemma_y_ne_n();
        }
        let len = value.unicode_len();
        let p = find_char(value, '=');
        let key = value.substring_char(0, p).to_owned();
        proof {
            assert(key@ == opt_key(value@));
        }
        if str_eq(key.as_str(), "wait-timeout-ms") {
            if p >= len {
                return Err(JsOptionParseError::InvalidValue);
            }
            let num_str = value.substring_char(p + 1, len);
            proof {
                assert(num_str@ == opt_value(value@));
            }
            match crate::text::parse_u64(num_str) {
                Some(n) => {
                    proof {
                        crate::text::lemma_digits_val_nonneg(
                            crate::text::unsigned_body(num_str@),
                        );
                    }
                    Ok(
                    JsGroupValue::Opt(
                        JsGroupOption { name: key, value: JsOptionValue::Number(n) },
                    ),
                )
                },
                None => Err(JsOptionParseError::InvalidValue),
            }
        } else {
            if p >= len {
                return Ok(
                    JsGroupValue::Opt(
                        JsGroupOption { name: key, value: JsOptionValue::Boolean(true) },
                    ),
                );
            }
            let v = value.substring_char(p + 1, len);
            proof {
                assert(v@ == opt_value(value@));
            }
            if str_eq(v, "y") {
                Ok(JsGroupValue::Opt(JsGroupOption { name: key, value: JsOptionValue::Boolean(true) }))
            } else if str_eq(v, "n") {
                Ok(
                    JsGroupValue::Opt(
                        JsGroupOption { name: key, value: JsOptionValue::Boolean(false) },
                    ),
                )
            } else {
                Err(JsOptionParseError::InvalidValue)
            }
        }
    }
}

/// Rejecting a runtime config option list.
#[derive(Debug)]
pub enum JsConfigError {
    /// The user asked for the option help text.
    HelpRequested,
    /// The active plugin's schema does not list this property.
    UnsupportedProperty(String),
    /// The property was given twice.
    DuplicateProperty(String),
    /// Waiting for completion without enabling the event loop.
    WaitForCompletionRequiresEventLoop,
}

/// The message each runtime config error carries.
pub open spec fn js_config_error_text(e: JsConfigError) -> Seq<char> {
    match e {
        JsConfigError::HelpRequested => "help requested"@,
        JsConfigError::UnsupportedProperty(n) => "Property "@ + n@
            + " is not supported for runtime configuration"@,
        JsConfigError::DuplicateProperty(n) => n@ + " can only be specified once"@,
        JsConfigError::WaitForCompletionRequiresEventLoop => "wait-for-completion requires event-loop to be enabled. Use: -J event-loop=y -J wait-for-completion=y"@,
    }
}

impl JsConfigError {
    pub fn message(&self) -> (r: String)
        ensures
            r@ == js_config_error_text(*self),
    {
        match self {
            JsConfigError::HelpRequested => String::from_str("help requested"),
            JsConfigError::UnsupportedProperty(n) => String::from_str("Property ").concat(
                n.as_str(),
            ).concat(" is not supported for runtime configuration"),
            JsConfigError::DuplicateProperty(n) => n.clone().concat(
                " can only be specified once",
            ),
            JsConfigError::WaitForCompletionRequiresEventLoop => String::from_str(
                "wait-for-completion requires event-loop to be enabled. Use: -J event-loop=y -J wait-for-completion=y",
            ),
        }
    }
}

/// The entries the group values build up, stopping at a help request, an
/// unsupported name or a duplicate.
pub open spec fn build_entries(
    props: Seq<JsConfigProperty>,
    vals: Seq<JsGroupValue>,
    acc: Seq<(String, JsOptionValue)>,
) -> Result<Seq<(String, JsOptionValue)>, JsConfigError>
    decreases vals.len(),
{
    if vals.len() == 0 {
        Ok(acc)
    } else {
        match vals[0] {
            JsGroupValue::Help => Err(JsConfigError::HelpRequested),
            JsGroupValue::Opt(opt) => {
                if !name_supported(props, opt.name@) {
                    Err(JsConfigError::UnsupportedProperty(opt.name))
                } else if lookup(acc, opt.name@) is Some {
                    Err(JsConfigError::DuplicateProperty(opt.name))
                } else {
                    build_entries(props, vals.drop_first(), acc.push((opt.name, opt.value)))
                }
            },
        }
    }
}

/// The cross-property rule: asking to wait for completion requires the
/// event loop to be enabled.
pub open spec fn wait_requirement_met(entries: Seq<(String, JsOptionValue)>) -> bool {
    (lookup(entries, "wait-for-completion"@) == Some(JsOptionValue::Boolean(true))) ==> (lookup(
        entries,
        "event-loop"@,
    ) == Some(JsOptionValue::Boolean(true)))
}

impl JsConfig {
    /// Build a runtime config from group values, against the property names
    /// the active plugin's schema supports.
    #[verifier::loop_isolation(false)]
    pub fn from_group_values(
        supported_properties: &Vec<JsConfigProperty>,
        group_values: Vec<JsGroupValue>,
    ) -> (r: Result<JsConfig, JsConfigError>)
        ensures
            ({
                let b = build_entries(supported_properties@, group_values@, Seq::empty());
                match b {
                    Err(e) => r matches Err(re) && re == e,
                    Ok(entries) => {
                        if wait_requirement_met(entries) {
                            r matches Ok(c) && c@ == entries
                        } else {
                            r matches Err(re) && re is WaitForCompletionRequiresEventLoop
                        }
                    },
                }
            }),
    {
        let ghost vals0 = group_values@;
        let ghost target = build_entries(supported_properties@, vals0, Seq::empty());
        let mut vals = group_values;
        let mut entries: Vec<(String, JsOptionValue)> = Vec::new();
        while vals.len() > 0
            invariant
                build_entries(supported_properties@, vals@, entries@) == target,
            decreases vals@.len(),
        {
            let ghost vs = vals@;
            let v = vals.remove(0);
            proof {
                assert(vs.drop_first() =~= vals@);
            }
            match v {
                JsGroupValue::Help => {
                    return Err(JsConfigError::HelpRequested);
                },
                JsGroupValue::Opt(opt) => {
                    if !crate::js_config::schema_supports(
                        supported_properties,
                        opt.name.as_str(),
                    ) {
                        return Err(JsConfigError::UnsupportedProperty(opt.name));
                    }
                    if lookup_value(&entries, opt.name.as_str()).is_some() {
                        return Err(JsConfigError::DuplicateProperty(opt.name));
                    }
                    entries.push((opt.name, opt.value));
                },
            }
        }
        proof {
            assert(target == Ok::<Seq<(String, JsOptionValue)>, JsConfigError>(entries@));
        }
        let wfc = lookup_value(&entries, "wait-for-completion");
        let el = lookup_value(&entries, "event-loop");
        let violated = match wfc {
            Some(JsOptionValue::Boolean(true)) => match el {
                Some(JsOptionValue::Boolean(true)) => false,
                _ => true,
            },
            _ => false,
        };
        if violated {
            return Err(JsConfigError::WaitForCompletionRequiresEventLoop);
        }
        Ok(JsConfig::from_hash(entries))
    }
}

} // verus!
