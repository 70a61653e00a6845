//! Cargo, the Rust package manager: reading the output of `cargo search`.
//!
//! Each result line reads `name = "version"    # description`.
use vstd::prelude::*;

use crate::result::{no_description, views, RecordView, SearchResult};
use crate::text::{
    strings_view, to_strings,
    chars_of, contains, find, find_char_span, find_span, lines, lines_span, span_starts_with,
    spans_in, spans_view, split, split_span, starts_with, string_of, trim, trim_span, trim_start,
    trim_start_span,
};

verus! {

/// The Cargo package manager.
pub struct CargoBackend;

impl CargoBackend {
    /// The name that labels this package manager's records.
    pub fn name(&self) -> (r: &'static str)
        ensures
            r@ == cargo_name(),
    {
        "cargo"
    }

    /// The program and arguments that search for `query`.
    pub fn search_command(&self, query: &str) -> (r: Vec<String>)
        ensures
            strings_view(r@) == seq!["cargo"@, "search"@, query@],
    {
        let mut r = to_strings(&["cargo", "search"]);
        r.push(query.to_string());
        assert(strings_view(r@) =~= seq!["cargo"@, "search"@, query@]);
        r
    }

    /// The program and arguments that install `pkg`, by its identifier.
    pub fn install_command(&self, pkg: &SearchResult) -> (r: Vec<String>)
        ensures
            strings_view(r@) == seq!["cargo"@, "install"@, pkg.identifier@],
    {
        let mut r = to_strings(&["cargo", "install"]);
        r.push(pkg.identifier.clone());
        assert(strings_view(r@) =~= seq!["cargo"@, "install"@, pkg.identifier@]);
        r
    }

    /// The outcome of an installation whose command succeeded or not.
    pub fn install_result(&self, succeeded: bool) -> (r: Result<(), String>)
        ensures
            succeeded ==> r is Ok,
            !succeeded ==> (r matches Err(e) && e@ == "Cargo install failed"@),
    {
        if succeeded {
            Ok(())
        } else {
            Err("Cargo install failed".to_string())
        }
    }
}

pub open spec fn cargo_name() -> Seq<char> {
    "cargo"@
}

/// The separator between a crate's name and its version.
pub open spec fn assign() -> Seq<char> {
    " = "@
}

/// A line that may hold a result: not blank, not a note or the closing
/// `...` line, and holding ` = `.
pub open spec fn cargo_keep(l: Seq<char>) -> bool {
    let t = trim(l);
    &&& t.len() > 0
    &&& !starts_with(t, "..."@)
    &&& !starts_with(t, "note:"@)
    &&& contains(t, assign())
}

/// The version and the description in what follows ` = ` on a result line.
/// A quoted version is followed by `# description`; without quotes, the
/// text before the first `#` is the version (when not blank) and the text
/// after it the description.
pub open spec fn cargo_fields(rest: Seq<char>) -> (Option<Seq<char>>, Seq<char>) {
    match find(rest, seq!['"']) {
        Some(q1) => {
            let after = rest.skip(q1 + 1);
            match find(after, seq!['"']) {
                Some(q2) => {
                    let tail = trim_start(after.skip(q2 + 1));
                    let desc = match find(tail, seq!['#']) {
                        Some(h) => trim(tail.skip(h + 1)),
                        None => Seq::empty(),
                    };
                    (Some(after.take(q2)), desc)
                },
                None => (None, trim(rest)),
            }
        },
        None => {
            let parts = split(rest, '#');
            let v0 = trim(parts[0]);
            (
                if v0.len() > 0 {
                    Some(v0)
                } else {
                    None
                },
                if parts.len() > 1 {
                    trim(parts[1])
                } else {
                    Seq::empty()
                },
            )
        },
    }
}

/// The record that the line `l` of `cargo search` describes, if any. The
/// crate's name is both its displayed name and its identifier.
pub open spec fn cargo_record(l: Seq<char>) -> Option<RecordView> {
    let t = trim(l);
    if !cargo_keep(l) {
        None
    } else {
        match find(t, assign()) {
            None => None,
            Some(e) => {
                let name = trim(t.take(e));
                let fields = cargo_fields(t.skip(e + assign().len()));
                if name.len() == 0 {
                    None
                } else {
                    Some(
                        RecordView {
                            backend: cargo_name(),
                            name,
                            identifier: name,
                            description: if fields.1.len() == 0 {
                                no_description()
                            } else {
                                fields.1
                            },
                            version: fields.0,
                        },
                    )
                }
            },
        }
    }
}

/// The version and the description in `v[lo..hi]`, the text after ` = `.
fn cargo_fields_span(v: &Vec<char>, lo: usize, hi: usize) -> (r: (Option<String>, String))
    requires
        lo <= hi <= v.len(),
    ensures
        (match r.0 {
            Some(x) => Some(x@),
            None => None,
        }, r.1@) == cargo_fields(v@.subrange(lo as int, hi as int)),
{
    let ghost rest = v@.subrange(lo as int, hi as int);
    match find_char_span(v, lo, hi, '"') {
        Some(q1) => {
            let aa = lo + q1 + 1;
            let ghost after = rest.skip(q1 + 1);
            assert(after =~= v@.subrange(aa as int, hi as int));
            match find_char_span(v, aa, hi, '"') {
                Some(q2) => {
                    let version = string_of(v, aa, aa + q2);
                    assert(after.take(q2 as int) =~= v@.subrange(aa as int, aa + q2));
                    assert(after.skip(q2 + 1) =~= v@.subrange(aa + q2 + 1, hi as int));
                    let ta = trim_start_span(v, aa + q2 + 1, hi);
                    let ghost tail = v@.subrange(ta as int, hi as int);
                    let desc = match find_char_span(v, ta, hi, '#') {
                        Some(h) => {
                            assert(tail.skip(h + 1) =~= v@.subrange(ta + h + 1, hi as int));
                            let (x, y) = trim_span(v, ta + h + 1, hi);
                            string_of(v, x, y)
                        },
                        None => String::new(),
                    };
                    (Some(version), desc)
                },
                None => {
                    let (x, y) = trim_span(v, lo, hi);
                    (None, string_of(v, x, y))
                },
            }
        },
        None => {
            let parts = split_span(v, lo, hi, '#');
            proof {
                crate::text::lemma_split_nonempty(rest, '#');
                assert(spans_view(v@, parts@)[0] == v@.subrange(parts@[0].0 as int, parts@[0].1 as int));
            }
            let (x, y) = trim_span(v, parts[0].0, parts[0].1);
            let version = if x < y {
                Some(string_of(v, x, y))
            } else {
                None
            };
            let desc = if parts.len() > 1 {
                proof {
                    assert(spans_view(v@, parts@)[1] == v@.subrange(parts@[1].0 as int, parts@[1].1 as int));
                }
                let (x1, y1) = trim_span(v, parts[1].0, parts[1].1);
                string_of(v, x1, y1)
            } else {
                String::new()
            };
            (version, desc)
        },
    }
}

/// The record on the line `v[lo..hi]` of `cargo search`, if any.
pub fn cargo_line(v: &Vec<char>, lo: usize, hi: usize) -> (r: Option<SearchResult>)
    requires
        lo <= hi <= v.len(),
    ensures
        (match r {
            Some(x) => Some(x@),
            None => None,
        }) == cargo_record(v@.subrange(lo as int, hi as int)),
{
    let (a, b) = trim_span(v, lo, hi);
    let ghost t = v@.subrange(a as int, b as int);
    let pat = chars_of(" = ");
    if a == b || span_starts_with(v, a, b, "...") || span_starts_with(v, a, b, "note:") {
        return None;
    }
    let e = match find_span(v, a, b, &pat) {
        Some(e) => e,
        None => {
            return None;
        },
    };
    let (na, nb) = trim_span(v, a, a + e);
    let ra = a + e + pat.len();
    proof {
        assert(t.take(e as int) =~= v@.subrange(a as int, a + e));
        assert(t.skip(e + assign().len()) =~= v@.subrange(ra as int, b as int));
    }
    let (version, desc) = cargo_fields_span(v, ra, b);
    if na == nb {
        return None;
    }
    let description = if desc.as_str().is_empty() {
        "No description available".to_string()
    } else {
        desc
    };
    Some(
        SearchResult {
            backend: "cargo".to_string(),
            name: string_of(v, na, nb),
            identifier: string_of(v, na, nb),
            description,
            version,
        },
    )
}

/// The records in the output `s` of `cargo search`, one per result line, in order.
pub fn parse_cargo(s: &str) -> (r: Vec<SearchResult>)
    ensures
        views(r@) == lines(s@).filter_map(|l: Seq<char>| cargo_record(l)),
{
    let v = chars_of(s);
    let ls = lines_span(&v);
    let ghost all = lines(v@);
    let mut out: Vec<SearchResult> = Vec::new();
    for k in 0..ls.len()
        invariant
            spans_in(v@, ls@),
            spans_view(v@, ls@) == all,
            views(out@) == all.take(k as int).filter_map(|l: Seq<char>| cargo_record(l)),
    {
        let (lo, hi) = ls[k];
        let rec = cargo_line(&v, lo, hi);
        proof {
            assert(all[k as int] == v@.subrange(lo as int, hi as int));
            assert(all.take(k + 1).drop_last() =~= all.take(k as int));
            assert(all.take(k + 1).last() == all[k as int]);
        }
        let ghost before = out@;
        match rec {
            Some(x) => {
                out.push(x);
                assert(cargo_record(all[k as int]) == Some(x@));
                assert(views(out@) =~= views(before) + seq![x@]);
            },
            None => {
                assert(cargo_record(all[k as int]) is None);
            },
        }
    }
    assert(all.take(ls.len() as int) =~= all);
    out
}

} // verus!
