//! DNF, the RPM package manager: reading the output of `dnf search`.
//!
//! Each result line reads `name.arch<TAB>description`.
use vstd::prelude::*;

use crate::result::{views, RecordView, SearchResult};
use crate::text::{
    strings_view, to_strings,
    append_span, append_str, chars_of, contains, find_char_span, lines, lines_span, rfind_char,
    rfind_char_span, span_starts_with, spans_in, spans_view, split, split_span, starts_with,
    string_of, trim, trim_span,
};

verus! {

/// The DNF package manager.
pub struct DnfBackend;

impl DnfBackend {
    /// The name that labels this package manager's records.
    pub fn name(&self) -> (r: &'static str)
        ensures
            r@ == dnf_name(),
    {
        "dnf"
    }

    /// The program and arguments that search for `query`.
    pub fn search_command(&self, query: &str) -> (r: Vec<String>)
        ensures
            strings_view(r@) == seq!["dnf"@, "search"@, "--assumeyes"@, "--setopt=assumeyes=True"@, query@],
    {
        let mut r = to_strings(&["dnf", "search", "--assumeyes", "--setopt=assumeyes=True"]);
        r.push(query.to_string());
        assert(strings_view(r@) =~= seq!["dnf"@, "search"@, "--assumeyes"@, "--setopt=assumeyes=True"@, query@]);
        r
    }

    /// The program and arguments that install `pkg`, by its identifier.
    pub fn install_command(&self, pkg: &SearchResult) -> (r: Vec<String>)
        ensures
            strings_view(r@) == seq!["sudo"@, "dnf"@, "install"@, "-y"@, pkg.identifier@],
    {
        let mut r = to_strings(&["sudo", "dnf", "install", "-y"]);
        r.push(pkg.identifier.clone());
        assert(strings_view(r@) =~= seq!["sudo"@, "dnf"@, "install"@, "-y"@, pkg.identifier@]);
        r
    }

    /// The outcome of an installation whose command succeeded or not.
    pub fn install_result(&self, succeeded: bool) -> (r: Result<(), String>)
        ensures
            succeeded ==> r is Ok,
            !succeeded ==> (r matches Err(e) && e@ == "DNF install failed"@),
    {
        if succeeded {
            Ok(())
        } else {
            Err("DNF install failed".to_string())
        }
    }
}

pub open spec fn dnf_name() -> Seq<char> {
    "dnf"@
}

/// A line that may hold a result: not blank, not one of DNF's headers, and
/// holding a tab.
pub open spec fn dnf_keep(l: Seq<char>) -> bool {
    let t = trim(l);
    &&& t.len() > 0
    &&& !starts_with(t, "Updating"@)
    &&& !starts_with(t, "Repositories"@)
    &&& !starts_with(t, "Matched fields"@)
    &&& contains(t, seq!['\t'])
}

/// The record that the line `l` of `dnf search` describes, if any. The
/// identifier is the package name without its architecture; the displayed
/// name shows the architecture in parentheses.
pub open spec fn dnf_record(l: Seq<char>) -> Option<RecordView> {
    let parts = split(l, '\t');
    if !dnf_keep(l) || parts.len() < 2 {
        None
    } else {
        let full = trim(parts[0]);
        let desc = trim(parts[1]);
        if full.len() == 0 || desc.len() == 0 {
            None
        } else {
            let (pkg, shown) = match rfind_char(full, '.') {
                Some(p) => (full.take(p), full.take(p) + " ("@ + full.skip(p + 1) + ")"@),
                None => (full, full),
            };
            Some(
                RecordView {
                    backend: dnf_name(),
                    name: shown,
                    identifier: pkg,
                    description: desc,
                    version: None,
                },
            )
        }
    }
}

/// The record on the line `v[lo..hi]` of `dnf search`, if any.
pub fn dnf_line(v: &Vec<char>, lo: usize, hi: usize) -> (r: Option<SearchResult>)
    requires
        lo <= hi <= v.len(),
    ensures
        (match r {
            Some(x) => Some(x@),
            None => None,
        }) == dnf_record(v@.subrange(lo as int, hi as int)),
{
    let ghost l = v@.subrange(lo as int, hi as int);
    let (a, b) = trim_span(v, lo, hi);
    if a == b || span_starts_with(v, a, b, "Updating") || span_starts_with(v, a, b, "Repositories")
        || span_starts_with(v, a, b, "Matched fields") || find_char_span(v, a, b, '\t').is_none() {
        return None;
    }
    let parts = split_span(v, lo, hi, '\t');
    if parts.len() < 2 {
        return None;
    }
    proof {
        assert(spans_view(v@, parts@)[0] == v@.subrange(parts@[0].0 as int, parts@[0].1 as int));
        assert(spans_view(v@, parts@)[1] == v@.subrange(parts@[1].0 as int, parts@[1].1 as int));
    }
    let (fa, fb) = trim_span(v, parts[0].0, parts[0].1);
    let (da, db) = trim_span(v, parts[1].0, parts[1].1);
    if fa == fb || da == db {
        return None;
    }
    let ghost full = v@.subrange(fa as int, fb as int);
    let description = string_of(v, da, db);
    match rfind_char_span(v, fa, fb, '.') {
        Some(p) => {
            let identifier = string_of(v, fa, fa + p);
            let mut name = string_of(v, fa, fa + p);
            append_str(&mut name, " (");
            append_span(&mut name, v, fa + p + 1, fb);
            append_str(&mut name, ")");
            proof {
                assert(full.take(p as int) =~= v@.subrange(fa as int, fa + p));
                assert(full.skip(p + 1) =~= v@.subrange(fa + p + 1, fb as int));
            }
            Some(
                SearchResult {
                    backend: "dnf".to_string(),
                    name,
                    identifier,
                    description,
                    version: None,
                },
            )
        },
        None => Some(
            SearchResult {
                backend: "dnf".to_string(),
                name: string_of(v, fa, fb),
                identifier: string_of(v, fa, fb),
                description,
                version: None,
            },
        ),
    }
}

/// The records in the output `s` of `dnf search`, one per result line, in order.
pub fn parse_dnf(s: &str) -> (r: Vec<SearchResult>)
    ensures
        views(r@) == lines(s@).filter_map(|l: Seq<char>| dnf_record(l)),
{
    let v = chars_of(s);
    let ls = lines_span(&v);
    let ghost all = lines(v@);
    let mut out: Vec<SearchResult> = Vec::new();
    for k in 0..ls.len()
        invariant
            spans_in(v@, ls@),
            spans_view(v@, ls@) == all,
            views(out@) == all.take(k as int).filter_map(|l: Seq<char>| dnf_record(l)),
    {
        let (lo, hi) = ls[k];
        let rec = dnf_line(&v, lo, hi);
        proof {
            assert(all[k as int] == v@.subrange(lo as int, hi as int));
            assert(all.take(k + 1).drop_last() =~= all.take(k as int));
            assert(all.take(k + 1).last() == all[k as int]);
        }
        let ghost before = out@;
        match rec {
            Some(x) => {
                out.push(x);
                assert(dnf_record(all[k as int]) == Some(x@));
                assert(views(out@) =~= views(before) + seq![x@]);
            },
            None => {
                assert(dnf_record(all[k as int]) is None);
            },
        }
    }
    assert(all.take(ls.len() as int) =~= all);
    out
}

} // verus!
