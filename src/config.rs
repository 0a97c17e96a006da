//! Dump settings: where documents go, which optional dumps run, and which
//! instance field names are never written.
use vstd::prelude::*;
use crate::text::{text, text_eq, push_char, append_str, matches_at};

verus! {

/// Whether `name` is one of the names in `bl`.
pub open spec fn blacklisted(bl: Seq<String>, name: Seq<char>) -> bool {
    exists|i: int| 0 <= i < bl.len() && #[trigger] bl[i]@ == name
}

/// Exact-name test against the field blacklist.
pub fn is_field_blacklisted(blacklist: &Vec<String>, name: &str) -> (r: bool)
    ensures
        r == blacklisted(blacklist@, name@),
{
    let mut i: usize = 0;
    while i < blacklist.len()
        invariant
            i <= blacklist.len(),
            forall|j: int| 0 <= j < i ==> #[trigger] blacklist@[j]@ != name@,
        decreases blacklist.len() - i,
    {
        if text_eq(blacklist[i].as_str(), name) {
            return true;
        }
        i = i + 1;
    }
    false
}

/// The names left out of instance dumps unless the configuration says otherwise.
pub open spec fn default_blacklist_names() -> Seq<Seq<char>> {
    seq![
        "_ownerViewerId"@,
        "owner_viewer_id"@,
        "viewer_id"@,
        "SimData"@,
        "SimReader"@,
        "CreateTime"@,
        "succession_history_array"@,
    ]
}

pub open spec fn names_view(v: Seq<String>) -> Seq<Seq<char>> {
    v.map_values(|s: String| s@)
}

pub fn default_field_blacklist() -> (r: Vec<String>)
    ensures
        names_view(r@) == default_blacklist_names(),
{
    let mut v: Vec<String> = Vec::new();
    v.push(text("_ownerViewerId"));
    v.push(text("owner_viewer_id"));
    v.push(text("viewer_id"));
    v.push(text("SimData"));
    v.push(text("SimReader"));
    v.push(text("CreateTime"));
    v.push(text("succession_history_array"));
    assert(names_view(v@) =~= default_blacklist_names());
    v
}

/// The settings file as written by the user.
pub struct Config {
    pub output_path: Option<String>,
    pub enable_logging: bool,
    pub dump_static_variable_define: bool,
    pub dump_enums: bool,
    pub field_blacklist: Vec<String>,
}

pub open spec fn default_output_path() -> Seq<char> {
    "%USERPROFILE%\\Documents"@
}

impl Default for Config {
    fn default() -> (r: Config)
        ensures
            r.output_path is Some,
            r.output_path->0@ == default_output_path(),
            !r.enable_logging,
            !r.dump_static_variable_define,
            !r.dump_enums,
            names_view(r.field_blacklist@) == default_blacklist_names(),
    {
        Config {
            output_path: Some(text("%USERPROFILE%\\Documents")),
            enable_logging: false,
            dump_static_variable_define: false,
            dump_enums: false,
            field_blacklist: default_field_blacklist(),
        }
    }
}

/// The settings in force once the output directory has been resolved.
pub struct Settings {
    pub save_root: String,
    pub enable_logging: bool,
    pub dump_static_variable_define: bool,
    pub dump_enums: bool,
    pub field_blacklist: Vec<String>,
}

impl Settings {
    /// Takes the switches and the blacklist of `cfg`, with `save_root` as the
    /// directory that receives the documents.
    pub fn from_config(cfg: Config, save_root: String) -> (r: Settings)
        ensures
            r.save_root == save_root,
            r.enable_logging == cfg.enable_logging,
            r.dump_static_variable_define == cfg.dump_static_variable_define,
            r.dump_enums == cfg.dump_enums,
            r.field_blacklist == cfg.field_blacklist,
    {
        Settings {
            save_root,
            enable_logging: cfg.enable_logging,
            dump_static_variable_define: cfg.dump_static_variable_define,
            dump_enums: cfg.dump_enums,
            field_blacklist: cfg.field_blacklist,
        }
    }
}

/// What trimming leading and trailing white space leaves of a text.
pub uninterp spec fn trimmed(s: Seq<char>) -> Seq<char>;

/// Relies on `str::trim`: the result depends on the text alone.
#[verifier::external_body]
fn trim_text(s: &str) -> (r: String)
    ensures
        r@ == trimmed(s@),
{
    s.trim().to_string()
}

/// `s` with each occurrence of the non-empty `pat`, scanning from the left,
/// replaced by `rep`.
pub open spec fn replace_all(s: Seq<char>, pat: Seq<char>, rep: Seq<char>) -> Seq<char>
    decreases s.len(),
{
    if pat.len() == 0 || s.len() < pat.len() {
        s
    } else if s.subrange(0, pat.len() as int) == pat {
        rep + replace_all(s.subrange(pat.len() as int, s.len() as int), pat, rep)
    } else {
        seq![s[0]] + replace_all(s.drop_first(), pat, rep)
    }
}

fn replace_text(s: &str, pat: &str, rep: &str) -> (r: String)
    requires
        pat@.len() > 0,
    ensures
        r@ == replace_all(s@, pat@, rep@),
{
    let n = s.unicode_len();
    let m = pat.unicode_len();
    let mut out = String::new();
    let mut i: usize = 0;
    assert(s@.subrange(0, n as int) =~= s@);
    while i < n
        invariant
            n == s@.len(),
            m == pat@.len(),
            m > 0,
            i <= n,
            out@ + replace_all(s@.subrange(i as int, n as int), pat@, rep@) == replace_all(s@, pat@, rep@),
        decreases n - i,
    {
        let ghost rest = s@.subrange(i as int, n as int);
        if m <= n - i && matches_at(s, pat, i) {
            assert(rest.subrange(0, m as int) =~= s@.subrange(i as int, i + m));
            assert(rest.subrange(m as int, rest.len() as int) =~= s@.subrange(i + m, n as int));
            let ghost before = out@;
            append_str(&mut out, rep);
            assert(out@ + replace_all(s@.subrange(i + m, n as int), pat@, rep@) =~= before + replace_all(rest, pat@, rep@));
            i = i + m;
        } else {
            if m <= n - i {
                assert(rest.subrange(0, m as int) =~= s@.subrange(i as int, i + m));
            }
            assert(rest.drop_first() =~= s@.subrange(i + 1, n as int));
            let ghost before = out@;
            push_char(&mut out, s.get_char(i));
            assert(out@ + replace_all(s@.subrange(i + 1, n as int), pat@, rep@) =~= before + replace_all(rest, pat@, rep@));
            i = i + 1;
        }
    }
    assert(out@ + replace_all(s@.subrange(n as int, n as int), pat@, rep@) =~= out@);
    out
}

/// The output directory that the settings ask for: the configured path, trimmed,
/// with `%USERPROFILE%` replaced by `home` when it is known; `None` when no path
/// is configured or it is blank.
pub open spec fn output_dir(path: Option<Seq<char>>, home: Option<Seq<char>>) -> Option<Seq<char>> {
    match path {
        Some(p) => if trimmed(p).len() == 0 {
            None
        } else {
            match home {
                Some(hm) => Some(replace_all(trimmed(p), "%USERPROFILE%"@, hm)),
                None => Some(trimmed(p)),
            }
        },
        None => None,
    }
}

pub open spec fn opt_text(o: Option<String>) -> Option<Seq<char>> {
    match o {
        Some(s) => Some(s@),
        None => None,
    }
}

pub fn resolve_output_dir(path: &Option<String>, home: &Option<String>) -> (r: Option<String>)
    ensures
        opt_text(r) == output_dir(opt_text(*path), opt_text(*home)),
{
    match path {
        Some(p) => {
            let t = trim_text(p.as_str());
            if t.unicode_len() == 0 {
                return None;
            }
            match home {
                Some(hm) => {
                    proof {
                        reveal_strlit("%USERPROFILE%");
                    }
                    Some(replace_text(t.as_str(), "%USERPROFILE%", hm.as_str()))
                },
                None => Some(t),
            }
        },
        None => None,
    }
}

/// The directory that receives the documents.
pub fn save_root(s: &Settings) -> (r: &String)
    ensures
        r == &s.save_root,
{
    &s.save_root
}

/// Whether a race dump is followed by a static snapshot.
pub fn dump_static_variable_define(s: &Settings) -> (r: bool)
    ensures
        r == s.dump_static_variable_define,
{
    s.dump_static_variable_define
}

/// Whether a race dump is followed by a dump of the enum cache.
pub fn dump_enums(s: &Settings) -> (r: bool)
    ensures
        r == s.dump_enums,
{
    s.dump_enums
}

/// The instance field names left out of dumps.
pub fn field_blacklist(s: &Settings) -> (r: &Vec<String>)
    ensures
        r == &s.field_blacklist,
{
    &s.field_blacklist
}

} // verus!
