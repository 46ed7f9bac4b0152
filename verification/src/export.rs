//! Names used when a strategy is exported: the trading pair read from the
//! strategy's metadata.

use vstd::prelude::*;
use crate::timeframe::{TimeFrame, file_code, timeframe_to_str};

verus! {

/// The string that the JSON pointer `pointer` addresses in the JSON document
/// `text`, as serde_json reads them; none when `text` is not JSON, nothing is
/// there, or what is there is not a string.
pub uninterp spec fn json_string_at(text: Seq<char>, pointer: Seq<char>) -> Option<Seq<char>>;

/// The final component of `path`, as `std::path::Path::file_name` gives it.
pub uninterp spec fn path_file_name(path: Seq<char>) -> Option<Seq<char>>;

/// Parses `text` with `serde_json::from_str` into a `serde_json::Value` and
/// looks up `pointer` with `Value::pointer`, keeping the result only when it is
/// a JSON string. The contract claims only that the outcome depends on the two
/// texts alone; what serde_json accepts and finds is left to it.
#[verifier::external_body]
fn string_at_pointer(text: &str, pointer: &str) -> (r: Option<String>)
    ensures
        r matches Some(s) ==> json_string_at(text@, pointer@) == Some(s@),
        r is None ==> json_string_at(text@, pointer@) is None,
{
    let value: serde_json::Value = match serde_json::from_str(text) {
        Ok(v) => v,
        Err(_) => return None,
    };
    match value.pointer(pointer) {
        Some(found) => match found.as_str() {
            Some(s) => Some(s.to_string()),
            None => None,
        },
        None => None,
    }
}

/// The final component of a path, from `std::path::Path::file_name`. The
/// contract claims only that the outcome depends on the path alone.
#[verifier::external_body]
fn file_name_of(path: &str) -> (r: Option<String>)
    ensures
        r matches Some(s) ==> path_file_name(path@) == Some(s@),
        r is None ==> path_file_name(path@) is None,
{
    match std::path::Path::new(path).file_name() {
        Some(name) => match name.to_str() {
            Some(s) => Some(s.to_string()),
            None => None,
        },
        None => None,
    }
}

/// The upper-case letter of a lower-case ASCII letter, as text.
fn upper_letter(c: char) -> (r: &'static str)
    requires
        'a' <= c <= 'z',
    ensures
        r@ == seq![ascii_upper_char(c)],
{
    match c {
        'a' => {
            proof {
                reveal_strlit("A");
            }
            "A"
        },
        'b' => {
            proof {
                reveal_strlit("B");
            }
            "B"
        },
        'c' => {
            proof {
                reveal_strlit("C");
            }
            "C"
        },
        'd' => {
            proof {
                reveal_strlit("D");
            }
            "D"
        },
        'e' => {
            proof {
                reveal_strlit("E");
            }
            "E"
        },
        'f' => {
            proof {
                reveal_strlit("F");
            }
            "F"
        },
        'g' => {
            proof {
                reveal_strlit("G");
            }
            "G"
        },
        'h' => {
            proof {
                reveal_strlit("H");
            }
            "H"
        },
        'i' => {
            proof {
                reveal_strlit("I");
            }
            "I"
        },
        'j' => {
            proof {
                reveal_strlit("J");
            }
            "J"
        },
        'k' => {
            proof {
                reveal_strlit("K");
            }
            "K"
        },
        'l' => {
            proof {
                reveal_strlit("L");
            }
            "L"
        },
        'm' => {
            proof {
                reveal_strlit("M");
            }
            "M"
        },
        'n' => {
            proof {
                reveal_strlit("N");
            }
            "N"
        },
        'o' => {
            proof {
                reveal_strlit("O");
            }
            "O"
        },
        'p' => {
            proof {
                reveal_strlit("P");
            }
            "P"
        },
        'q' => {
            proof {
                reveal_strlit("Q");
            }
            "Q"
        },
        'r' => {
            proof {
                reveal_strlit("R");
            }
            "R"
        },
        's' => {
            proof {
                reveal_strlit("S");
            }
            "S"
        },
        't' => {
            proof {
                reveal_strlit("T");
            }
            "T"
        },
        'u' => {
            proof {
                reveal_strlit("U");
            }
            "U"
        },
        'v' => {
            proof {
                reveal_strlit("V");
            }
            "V"
        },
        'w' => {
            proof {
                reveal_strlit("W");
            }
            "W"
        },
        'x' => {
            proof {
                reveal_strlit("X");
            }
            "X"
        },
        'y' => {
            proof {
                reveal_strlit("Y");
            }
            "Y"
        },
        _ => {
            proof {
                reveal_strlit("Z");
            }
            "Z"
        },
    }
}

/// `s` with its ASCII letters upper-cased.
fn ascii_upper_text(s: &str) -> (r: String)
    ensures
        r@ == s@.map_values(|c: char| ascii_upper_char(c)),
{
    let n = s.unicode_len();
    let mut out = String::new();
    let mut i: usize = 0;
    while i < n
        invariant
            n == s@.len(),
            i <= n,
            out@ == s@.take(i as int).map_values(|c: char| ascii_upper_char(c)),
        decreases n - i,
    {
        let c = s.get_char(i);
        if 'a' <= c && c <= 'z' {
            out.append(upper_letter(c));
        } else {
            out.append(s.substring_char(i, i + 1));
        }
        proof {
            assert(s@.take(i + 1) =~= s@.take(i as int).push(c));
            assert(out@ =~= s@.take(i + 1).map_values(|c: char| ascii_upper_char(c)));
        }
        i = i + 1;
    }
    proof {
        assert(s@.take(n as int) =~= s@);
    }
    out
}

/// Upper-cases ASCII letters and keeps every other character.
pub open spec fn ascii_upper_char(c: char) -> char {
    if 'a' <= c && c <= 'z' {
        ((c as u32) - 32) as char
    } else {
        c
    }
}

/// The characters of `s` before its first '_' (all of them when it has none).
pub open spec fn before_underscore(s: Seq<char>) -> Seq<char>
    decreases s.len(),
{
    if s.len() == 0 {
        s
    } else if s[0] == '_' {
        Seq::empty()
    } else {
        seq![s[0]] + before_underscore(s.drop_first())
    }
}

/// The pair a data file name names: its upper-cased text up to the first '_'.
pub open spec fn pair_of_file_name(name: Seq<char>) -> Seq<char> {
    before_underscore(name.map_values(|c: char| ascii_upper_char(c)))
}

/// The data file a strategy's metadata names: at "data_file", else at
/// "config"/"data_file".
pub open spec fn data_file_of(meta: Seq<char>) -> Option<Seq<char>> {
    match json_string_at(meta, "/data_file"@) {
        Some(d) => Some(d),
        None => json_string_at(meta, "/config/data_file"@),
    }
}

/// The pair a strategy's metadata names, or "PAIR".
pub open spec fn pair_of_meta(meta: Option<Seq<char>>) -> Seq<char> {
    match meta {
        Some(m) => match data_file_of(m) {
            Some(d) => match path_file_name(d) {
                Some(name) => pair_of_file_name(name),
                None => "PAIR"@,
            },
            None => "PAIR"@,
        },
        None => "PAIR"@,
    }
}

proof fn lemma_before_underscore_prefix(s: Seq<char>, i: int)
    requires
        0 <= i <= s.len(),
        forall|k: int| 0 <= k < i ==> s[k] != '_',
    ensures
        before_underscore(s) == s.take(i) + before_underscore(s.skip(i)),
    decreases i,
{
    if i > 0 {
        assert forall|k: int| 0 <= k < i - 1 implies s.drop_first()[k] != '_' by {
            assert(s.drop_first()[k] == s[k + 1]);
        }
        lemma_before_underscore_prefix(s.drop_first(), i - 1);
        assert(s.drop_first().skip(i - 1) =~= s.skip(i));
        assert(seq![s[0]] + s.drop_first().take(i - 1) =~= s.take(i));
    } else {
        assert(s.skip(0) =~= s);
        assert(s.take(0) =~= Seq::<char>::empty());
    }
}

/// The pair a data file name names: "btcusdt_1h.csv" gives "BTCUSDT".
pub fn pair_from_file_name(name: &str) -> (r: String)
    ensures
        r@ == pair_of_file_name(name@),
{
    let upper = ascii_upper_text(name);
    let text = upper.as_str();
    let n = text.unicode_len();
    let mut k: usize = 0;
    while k < n && text.get_char(k) != '_'
        invariant
            n == text@.len(),
            k <= n,
            forall|j: int| 0 <= j < k ==> text@[j] != '_',
        decreases n - k,
    {
        k = k + 1;
    }
    proof {
        lemma_before_underscore_prefix(text@, k as int);
        if k < n {
            assert(text@.skip(k as int)[0] == '_');
        } else {
            assert(text@.skip(k as int) =~= Seq::<char>::empty());
        }
        assert(text@.subrange(0, k as int) =~= text@.take(k as int));
    }
    String::from_str(text.substring_char(0, k))
}

/// The trading pair of an exported strategy: the data file named in its
/// metadata (at "data_file", else at "config"/"data_file"), reduced to its
/// file name, upper-cased and cut at the first '_'; "PAIR" when there is no
/// metadata, it is not JSON, it names no data file or the path has no file
/// name.
pub fn extract_pair(strategy_meta: Option<&str>) -> (r: String)
    ensures
        r@ == pair_of_meta(match strategy_meta {
            Some(m) => Some(m@),
            None => None,
        }),
{
    match strategy_meta {
        Some(meta) => {
            let data_file = match string_at_pointer(meta, "/data_file") {
                Some(d) => Some(d),
                None => string_at_pointer(meta, "/config/data_file"),
            };
            match data_file {
                Some(d) => match file_name_of(d.as_str()) {
                    Some(name) => pair_from_file_name(name.as_str()),
                    None => String::from_str("PAIR"),
                },
                None => String::from_str("PAIR"),
            }
        },
        None => String::from_str("PAIR"),
    }
}


/// A JSON document as serde_json pretty-prints it; none when the text is not
/// JSON.
pub uninterp spec fn pretty_json(text: Seq<char>) -> Option<Seq<char>>;

/// Parses `text` with `serde_json::from_str` into a `serde_json::Value` and
/// prints it with `serde_json::to_string_pretty`. The contract claims only
/// that the outcome depends on the text alone.
#[verifier::external_body]
fn pretty_json_text(text: &str) -> (r: Option<String>)
    ensures
        r matches Some(s) ==> pretty_json(text@) == Some(s@),
        r is None ==> pretty_json(text@) is None,
{
    let value: serde_json::Value = match serde_json::from_str(text) {
        Ok(v) => v,
        Err(_) => return None,
    };
    match serde_json::to_string_pretty(&value) {
        Ok(s) => Some(s),
        Err(_) => None,
    }
}

/// `s` with every `a` and every `b` replaced by `with`.
pub open spec fn substituted(s: Seq<char>, a: char, b: char, with: Seq<char>) -> Seq<char>
    decreases s.len(),
{
    if s.len() == 0 {
        s
    } else {
        substituted(s.drop_last(), a, b, with) + (if s.last() == a || s.last() == b {
            with
        } else {
            seq![s.last()]
        })
    }
}

proof fn lemma_substituted_run(s: Seq<char>, a: char, b: char, with: Seq<char>, r: int, k: int)
    requires
        0 <= r <= k <= s.len(),
        forall|t: int| r <= t < k ==> s[t] != a && s[t] != b,
    ensures
        substituted(s.take(k), a, b, with) == substituted(s.take(r), a, b, with) + s.subrange(r, k),
    decreases k - r,
{
    if k > r {
        lemma_substituted_run(s, a, b, with, r, k - 1);
        assert(s.take(k).drop_last() =~= s.take(k - 1));
        assert(s.take(k).last() == s[k - 1]);
        assert(s.subrange(r, k) =~= s.subrange(r, k - 1).push(s[k - 1]));
        assert(substituted(s.take(r), a, b, with) + s.subrange(r, k - 1) + seq![s[k - 1]] =~= substituted(
            s.take(r),
            a,
            b,
            with,
        ) + s.subrange(r, k));
    } else {
        assert(s.subrange(r, r) =~= Seq::<char>::empty());
        assert(substituted(s.take(r), a, b, with) + s.subrange(r, r) =~= substituted(s.take(r), a, b, with));
    }
}

/// `s` with every `a` and every `b` replaced by `with`.
fn substitute(s: &str, a: char, b: char, with: &str) -> (r: String)
    ensures
        r@ == substituted(s@, a, b, with@),
{
    let n = s.unicode_len();
    let mut out = String::new();
    let mut run: usize = 0;
    let mut i: usize = 0;
    proof {
        assert(s@.take(0) =~= Seq::<char>::empty());
    }
    while i < n
        invariant
            n == s@.len(),
            run <= i <= n,
            out@ == substituted(s@.take(run as int), a, b, with@),
            forall|t: int| run <= t < i ==> s@[t] != a && s@[t] != b,
        decreases n - i,
    {
        let c = s.get_char(i);
        if c == a || c == b {
            proof {
                lemma_substituted_run(s@, a, b, with@, run as int, i as int);
                assert(s@.take(i + 1).drop_last() =~= s@.take(i as int));
                assert(s@.take(i + 1).last() == c);
            }
            out.append(s.substring_char(run, i));
            out.append(with);
            proof {
                assert(out@ =~= substituted(s@.take(i + 1), a, b, with@));
            }
            run = i + 1;
        }
        i = i + 1;
    }
    out.append(s.substring_char(run, n));
    proof {
        lemma_substituted_run(s@, a, b, with@, run as int, n as int);
        assert(s@.take(n as int) =~= s@);
    }
    out
}

/// A strategy name fit for a file name: spaces and '/' become '_'.
pub open spec fn safe_name(name: Seq<char>) -> Seq<char> {
    substituted(name, ' ', '/', "_"@)
}

/// Pretty JSON with each '"' escaped as '\"'.
pub open spec fn escaped_json(json: Seq<char>) -> Seq<char> {
    substituted(json, '"', '"', "\\\""@)
}

/// "strategy_{safe name}_{timeframe code}_{pair}.rs".
pub open spec fn export_file_name(name: Seq<char>, tf: TimeFrame, meta: Option<Seq<char>>) -> Seq<char> {
    "strategy_"@ + safe_name(name) + "_"@ + file_code(tf) + "_"@ + pair_of_meta(meta) + ".rs"@
}

/// The comment lines of an exported module.
pub open spec fn module_header(name: Seq<char>, pair: Seq<char>, tf: Seq<char>, db: Seq<char>) -> Seq<char> {
    "// Autogenerado desde SQLite (nombre: "@ + name + ")\n// Pair: "@ + pair + "\n// Timeframe: "@ + tf
        + "\n// Ruta DB: "@ + db + "\n"@
}

/// The code of an exported module: the name, the escaped JSON and a loader.
pub open spec fn module_body(name: Seq<char>, json: Seq<char>) -> Seq<char> {
    "use darwinx_generator::ast::nodes::StrategyAST;\nuse serde_json;\n\npub const STRATEGY_NAME: &str = \""@ + name
        + "\";\npub const STRATEGY_JSON: &str = r#\""@ + json
        + "\"#;\n\npub fn load_strategy_ast() -> StrategyAST {\nserde_json::from_str(STRATEGY_JSON).expect(\"AST válido\")\n}\n"@
}

/// The text of the module that embeds a strategy's pretty JSON.
pub open spec fn export_module_text(
    name: Seq<char>,
    db: Seq<char>,
    tf: TimeFrame,
    meta: Option<Seq<char>>,
    pretty: Seq<char>,
) -> Seq<char> {
    module_header(name, pair_of_meta(meta), file_code(tf), db) + module_body(name, escaped_json(pretty))
}

fn module_header_text(name: &str, pair: &str, tf: &str, db: &str) -> (r: String)
    ensures
        r@ == module_header(name@, pair@, tf@, db@),
{
    let mut s = String::from_str("// Autogenerado desde SQLite (nombre: ");
    s.append(name);
    s.append(")\n// Pair: ");
    s.append(pair);
    s.append("\n// Timeframe: ");
    s.append(tf);
    s.append("\n// Ruta DB: ");
    s.append(db);
    s.append("\n");
    proof {
        assert(s@ =~= module_header(name@, pair@, tf@, db@));
    }
    s
}

fn module_body_text(name: &str, json: &str) -> (r: String)
    ensures
        r@ == module_body(name@, json@),
{
    let mut s = String::from_str("use darwinx_generator::ast::nodes::StrategyAST;\nuse serde_json;\n\npub const STRATEGY_NAME: &str = \"");
    s.append(name);
    s.append("\";\npub const STRATEGY_JSON: &str = r#\"");
    s.append(json);
    s.append("\"#;\n\npub fn load_strategy_ast() -> StrategyAST {\nserde_json::from_str(STRATEGY_JSON).expect(\"AST válido\")\n}\n");
    proof {
        assert(s@ =~= module_body(name@, json@));
    }
    s
}

/// The file name and the text of the Rust module that embeds a stored
/// strategy: its JSON pretty-printed, each '"' escaped, with its name, pair,
/// timeframe code and database path in comments. None when `ast_json` is not
/// JSON.
pub fn export_file(
    strategy_name: &str,
    db_path: &str,
    timeframe: TimeFrame,
    strategy_meta: Option<&str>,
    ast_json: &str,
) -> (r: Option<(String, String)>)
    ensures
        r is None <==> pretty_json(ast_json@) is None,
        r matches Some((file, content)) ==> {
            let meta = match strategy_meta {
                Some(m) => Some(m@),
                None => None,
            };
            &&& file@ == export_file_name(strategy_name@, timeframe, meta)
            &&& content@ == export_module_text(strategy_name@, db_path@, timeframe, meta, pretty_json(ast_json@)->0)
        },
{
    let pretty = match pretty_json_text(ast_json) {
        Some(p) => p,
        None => return None,
    };
    let tf = timeframe_to_str(timeframe);
    let pair = extract_pair(strategy_meta);
    let safe = substitute(strategy_name, ' ', '/', "_");
    let mut file = String::from_str("strategy_");
    file.append(safe.as_str());
    file.append("_");
    file.append(tf);
    file.append("_");
    file.append(pair.as_str());
    file.append(".rs");
    let escaped = substitute(pretty.as_str(), '"', '"', "\\\"");
    let mut content = module_header_text(strategy_name, pair.as_str(), tf, db_path);
    let body = module_body_text(strategy_name, escaped.as_str());
    content.append(body.as_str());
    proof {
        reveal_strlit("_");
        reveal_strlit("\\\"");
        let meta = match strategy_meta {
            Some(m) => Some(m@),
            None => None,
        };
        assert(file@ =~= export_file_name(strategy_name@, timeframe, meta));
        assert(content@ =~= export_module_text(strategy_name@, db_path@, timeframe, meta, pretty@));
    }
    Some((file, content))
}

} // verus!
