//! The configuration-file tool's core: which formats exist, which parser
//! a format name selects, and how a file path's extension decides the
//! format. Reading files and running serde live with the caller; every
//! decision here is proved.

use vstd::prelude::*;

use crate::errors::lower_of;

verus! {

/// The errors of the configuration tool.
#[derive(Clone, Debug)]
pub enum ConfigError {
    FileNotFound { path: String },
    UnsupportedFormat { format: String },
    ParseError { message: String },
    SerializeError { message: String },
    IoError { message: String },
    ValidationError { message: String },
    ConversionError { message: String },
}

/// The index of the last occurrence of `c` in `s`, or minus one.
pub open spec fn rlast(s: Seq<char>, c: char) -> int
    decreases s.len(),
{
    if s.len() == 0 {
        -1
    } else if s.last() == c {
        s.len() - 1
    } else {
        rlast(s.drop_last(), c)
    }
}

/// The extension of the path `s`: what follows the last dot of its last
/// component, unless that component has no dot past its first
/// character.
pub open spec fn spec_extension(s: Seq<char>) -> Option<Seq<char>> {
    let base = rlast(s, '/') + 1;
    let name = s.skip(base);
    let d = rlast(name, '.');
    if d <= 0 {
        None
    } else {
        Some(name.skip(d + 1))
    }
}

/// Whether `e` names a supported format, in any ASCII case.
pub open spec fn spec_supported(e: Seq<char>) -> bool {
    lower_of(e) == "json"@ || lower_of(e) == "yaml"@ || lower_of(e) == "yml"@ || lower_of(e)
        == "toml"@
}

/// `rlast` never points past the end.
proof fn lemma_rlast_bounds(s: Seq<char>, c: char)
    ensures
        -1 <= rlast(s, c) < s.len(),
    decreases s.len(),
{
    if s.len() > 0 && s.last() != c {
        lemma_rlast_bounds(s.drop_last(), c);
    }
}

/// Whether `a` and `b` read the same once both have their ASCII
/// capitals lowered.
pub fn eq_ignore_ascii_case(a: &str, b: &str) -> (r: bool)
    ensures
        r == (lower_of(a@) == lower_of(b@)),
{
    let n = a.unicode_len();
    let m = b.unicode_len();
    if n != m {
        proof {
            assert(lower_of(a@).len() == a@.len());
            assert(lower_of(b@).len() == b@.len());
        }
        return false;
    }
    let mut i: usize = 0;
    while i < n
        invariant
            0 <= i <= n,
            n == a@.len(),
            n == b@.len(),
            forall|j: int| 0 <= j < i ==> lower_of(a@)[j] == lower_of(b@)[j],
        decreases n - i,
    {
        if crate::errors::lower_char_exec(a.get_char(i)) != crate::errors::lower_char_exec(
            b.get_char(i),
        ) {
            proof {
                assert(lower_of(a@)[i as int] != lower_of(b@)[i as int]);
            }
            return false;
        }
        i = i + 1;
    }
    proof {
        assert(lower_of(a@) =~= lower_of(b@));
    }
    true
}

/// The position right after the last `c` in `path`, scanning the whole
/// text; zero when `c` never occurs.
fn scan_after_last(path: &str, c: char) -> (r: usize)
    ensures
        r == rlast(path@, c) + 1,
{
    let n = path.unicode_len();
    let mut after: usize = 0;
    let mut i: usize = 0;
    while i < n
        invariant
            0 <= i <= n,
            n == path@.len(),
            after == rlast(path@.subrange(0, i as int), c) + 1,
        decreases n - i,
    {
        proof {
            assert(path@.subrange(0, i + 1).drop_last() =~= path@.subrange(0, i as int));
        }
        if path.get_char(i) == c {
            after = i + 1;
        }
        i = i + 1;
    }
    proof {
        assert(path@.subrange(0, n as int) =~= path@);
    }
    after
}

/// Checks that `path` carries a file extension and that it names a
/// supported format; the extension is returned as it stands in the path.
pub fn check_file_extension(path: &str) -> (r: Result<String, ConfigError>)
    ensures
        match spec_extension(path@) {
            None => r matches Err(ConfigError::ValidationError { message }) && message@
                == "cannot read a file extension from: "@ + path@,
            Some(e) => if spec_supported(e) {
                r matches Ok(ext) && ext@ == e
            } else {
                r matches Err(ConfigError::UnsupportedFormat { format }) && format@ == e
            },
        },
{
    let n = path.unicode_len();
    let base = scan_after_last(path, '/');
    proof {
        lemma_rlast_bounds(path@, '/');
    }
    let name = path.substring_char(base, n);
    proof {
        assert(name@ =~= path@.skip(base as int));
    }
    let m = name.unicode_len();
    let after_dot = scan_after_last(name, '.');
    proof {
        lemma_rlast_bounds(name@, '.');
    }
    if after_dot <= 1 {
        let mut message = "cannot read a file extension from: ".to_owned();
        message.append(path);
        return Err(ConfigError::ValidationError { message });
    }
    let ext = name.substring_char(after_dot, m).to_owned();
    proof {
        assert(ext@ =~= path@.skip(base as int).skip(after_dot as int));
        assert(spec_extension(path@) == Some(ext@));
    }
    if eq_ignore_ascii_case(ext.as_str(), "json") || eq_ignore_ascii_case(ext.as_str(), "yaml")
        || eq_ignore_ascii_case(ext.as_str(), "yml") || eq_ignore_ascii_case(ext.as_str(), "toml") {
        proof {
            lemma_lower_of_keyword();
        }
        Ok(ext)
    } else {
        proof {
            lemma_lower_of_keyword();
        }
        Err(ConfigError::UnsupportedFormat { format: ext })
    }
}

/// The four format keywords read as themselves once lowered, and no two
/// of them read alike.
proof fn lemma_lower_of_keyword()
    ensures
        lower_of("json"@) == "json"@,
        lower_of("yaml"@) == "yaml"@,
        lower_of("yml"@) == "yml"@,
        lower_of("toml"@) == "toml"@,
        "json"@ != "yaml"@ && "json"@ != "yml"@ && "json"@ != "toml"@,
        "yaml"@ != "yml"@ && "yaml"@ != "toml"@,
        "yml"@ != "toml"@,
{
    reveal_strlit("json");
    reveal_strlit("yaml");
    reveal_strlit("yml");
    reveal_strlit("toml");
    assert(lower_of("json"@) =~= "json"@);
    assert(lower_of("yaml"@) =~= "yaml"@);
    assert(lower_of("yml"@) =~= "yml"@);
    assert(lower_of("toml"@) =~= "toml"@);
    assert("json"@[0] == 'j' && "yaml"@[0] == 'y' && "yml"@[0] == 'y' && "toml"@[0] == 't');
    assert("yaml"@.len() == 4 && "yml"@.len() == 3);
}

/// Checks that a path was given at all.
pub fn validate_config_path(path: Option<&str>) -> (r: Result<String, ConfigError>)
    ensures
        path matches Some(p) ==> (r matches Ok(s) && s@ == p@),
        path is None ==> (r matches Err(ConfigError::ValidationError { message }) && message@
            == "a configuration file path is required"@),
{
    match path {
        Some(p) => Ok(p.to_owned()),
        None => Err(
            ConfigError::ValidationError {
                message: "a configuration file path is required".to_owned(),
            },
        ),
    }
}

/// Parses JSON configuration text; the parsing itself happens at the
/// caller's edge.
#[derive(Clone, Debug)]
pub struct JsonParser;

/// Parses YAML configuration text; the parsing itself happens at the
/// caller's edge.
#[derive(Clone, Debug)]
pub struct YamlParser;

/// Parses TOML configuration text; the parsing itself happens at the
/// caller's edge.
#[derive(Clone, Debug)]
pub struct TomlParser;

/// Which parser a format name selects.
#[derive(Clone, Copy, Debug, PartialEq, Eq, Structural)]
pub enum ParserKind {
    Json,
    Yaml,
    Toml,
}

impl JsonParser {
    pub fn supported_format(&self) -> (r: &'static str)
        ensures
            r@ == "json"@,
    {
        "json"
    }
}

impl YamlParser {
    pub fn supported_format(&self) -> (r: &'static str)
        ensures
            r@ == "yaml"@,
    {
        "yaml"
    }
}

impl TomlParser {
    pub fn supported_format(&self) -> (r: &'static str)
        ensures
            r@ == "toml"@,
    {
        "toml"
    }
}

/// Picks parsers by format name.
pub struct ParserFactory;

impl ParserFactory {
    /// The parser for `format`, matched without regard to ASCII case;
    /// an unknown format is refused by name.
    pub fn create_parser(format: &str) -> (r: Result<ParserKind, ConfigError>)
        ensures
            lower_of(format@) == "json"@ ==> r == Ok::<ParserKind, ConfigError>(ParserKind::Json),
            lower_of(format@) == "yaml"@ || lower_of(format@) == "yml"@ ==> r == Ok::<
                ParserKind,
                ConfigError,
            >(ParserKind::Yaml),
            lower_of(format@) == "toml"@ ==> r == Ok::<ParserKind, ConfigError>(ParserKind::Toml),
            !spec_supported(format@) ==> (r matches Err(
                ConfigError::UnsupportedFormat { format: f },
            ) && f@ == format@),
    {
        proof {
            lemma_lower_of_keyword();
        }
        if eq_ignore_ascii_case(format, "json") {
            Ok(ParserKind::Json)
        } else if eq_ignore_ascii_case(format, "yaml") || eq_ignore_ascii_case(format, "yml") {
            Ok(ParserKind::Yaml)
        } else if eq_ignore_ascii_case(format, "toml") {
            Ok(ParserKind::Toml)
        } else {
            Err(ConfigError::UnsupportedFormat { format: format.to_owned() })
        }
    }

    /// The format names the factory accepts.
    pub fn supported_formats() -> (r: Vec<&'static str>)
        ensures
            r@.len() == 4,
            r@[0]@ == "json"@,
            r@[1]@ == "yaml"@,
            r@[2]@ == "yml"@,
            r@[3]@ == "toml"@,
    {
        let mut v: Vec<&'static str> = Vec::new();
        v.push("json");
        v.push("yaml");
        v.push("yml");
        v.push("toml");
        v
    }
}

/// What the command line asked for.
pub struct Cli {
    pub command: Commands,
}

/// The commands of the configuration tool.
pub enum Commands {
    /// Load and show a configuration file.
    Load { file: String, format: Option<String> },
    /// Write a default configuration file.
    Create { output: String, format: String },
    /// Convert a configuration file to another format.
    Convert { input: String, output: String, target_format: String },
    /// Validate a configuration file.
    Validate { file: String },
    /// List the supported formats.
    Formats,
    /// Show a feature demonstration.
    Demo { demo_type: String },
}

/// Runs the command-line tool's decisions; the file handling around them
/// lives with the caller.
pub struct CliHandler;

impl CliHandler {
    /// The format to read `file` as: an explicit choice wins, otherwise
    /// the file's extension decides.
    pub fn resolve_format(file: &str, format: Option<&str>) -> (r: Result<String, ConfigError>)
        ensures
            format matches Some(f) ==> (r matches Ok(s) && s@ == f@),
            format is None && spec_extension(file@) is None ==> r is Err,
            format is None && (spec_extension(file@) matches Some(e) && spec_supported(e))
                ==> (r matches Ok(s) && Some(s@) == spec_extension(file@)),
            format is None && (spec_extension(file@) matches Some(e) && !spec_supported(e))
                ==> r is Err,
    {
        match format {
            Some(f) => Ok(f.to_owned()),
            None => check_file_extension(file),
        }
    }
}

} // verus!
