//! Flatpak: reading the output of `flatpak search`.
//!
//! Each result line reads
//! `name<TAB>description<TAB>application id<TAB>version<TAB>branch<TAB>remote`.
use vstd::prelude::*;

use crate::result::{no_description, views, RecordView, SearchResult};
use crate::text::{
    strings_view, to_strings,
    chars_of, contains, find_char_span, lines, lines_span, spans_in, spans_view, split, split_span,
    string_of, trim, trim_span,
};

verus! {

/// The Flatpak package manager.
pub struct FlatpakBackend;

impl FlatpakBackend {
    /// The name that labels this package manager's records.
    pub fn name(&self) -> (r: &'static str)
        ensures
            r@ == flatpak_name(),
    {
        "flatpak"
    }

    /// The program and arguments that search for `query`.
    pub fn search_command(&self, query: &str) -> (r: Vec<String>)
        ensures
            strings_view(r@) == seq!["flatpak"@, "search"@, query@],
    {
        let mut r = to_strings(&["flatpak", "search"]);
        r.push(query.to_string());
        assert(strings_view(r@) =~= seq!["flatpak"@, "search"@, query@]);
        r
    }

    /// The program and arguments that install `pkg`, by its identifier.
    pub fn install_command(&self, pkg: &SearchResult) -> (r: Vec<String>)
        ensures
            strings_view(r@) == seq!["flatpak"@, "install"@, "flathub"@, pkg.identifier@],
    {
        let mut r = to_strings(&["flatpak", "install", "flathub"]);
        r.push(pkg.identifier.clone());
        assert(strings_view(r@) =~= seq!["flatpak"@, "install"@, "flathub"@, pkg.identifier@]);
        r
    }

    /// The outcome of an installation whose command succeeded or not.
    pub fn install_result(&self, succeeded: bool) -> (r: Result<(), String>)
        ensures
            succeeded ==> r is Ok,
            !succeeded ==> (r matches Err(e) && e@ == "Flatpak install failed"@),
    {
        if succeeded {
            Ok(())
        } else {
            Err("Flatpak install failed".to_string())
        }
    }
}

pub open spec fn flatpak_name() -> Seq<char> {
    "flatpak"@
}

/// A line that may hold a result: not blank, and holding a tab.
pub open spec fn flatpak_keep(l: Seq<char>) -> bool {
    trim(l).len() > 0 && contains(trim(l), seq!['\t'])
}

/// The record that the line `l` of `flatpak search` describes, if any: it
/// needs at least three fields, a name and an application id.
pub open spec fn flatpak_record(l: Seq<char>) -> Option<RecordView> {
    let parts = split(l, '\t');
    if !flatpak_keep(l) || parts.len() < 3 {
        None
    } else {
        let name = trim(parts[0]);
        let desc = trim(parts[1]);
        let app = trim(parts[2]);
        let version = if parts.len() > 3 && trim(parts[3]).len() > 0 {
            Some(trim(parts[3]))
        } else {
            None
        };
        if name.len() == 0 || app.len() == 0 {
            None
        } else {
            Some(
                RecordView {
                    backend: flatpak_name(),
                    name,
                    identifier: app,
                    description: if desc.len() == 0 {
                        no_description()
                    } else {
                        desc
                    },
                    version,
                },
            )
        }
    }
}

/// The record on the line `v[lo..hi]` of `flatpak search`, if any.
pub fn flatpak_line(v: &Vec<char>, lo: usize, hi: usize) -> (r: Option<SearchResult>)
    requires
        lo <= hi <= v.len(),
    ensures
        (match r {
            Some(x) => Some(x@),
            None => None,
        }) == flatpak_record(v@.subrange(lo as int, hi as int)),
{
    let (a, b) = trim_span(v, lo, hi);
    if a == b || find_char_span(v, a, b, '\t').is_none() {
        return None;
    }
    let parts = split_span(v, lo, hi, '\t');
    if parts.len() < 3 {
        return None;
    }
    proof {
        assert(spans_view(v@, parts@)[0] == v@.subrange(parts@[0].0 as int, parts@[0].1 as int));
        assert(spans_view(v@, parts@)[1] == v@.subrange(parts@[1].0 as int, parts@[1].1 as int));
        assert(spans_view(v@, parts@)[2] == v@.subrange(parts@[2].0 as int, parts@[2].1 as int));
    }
    let (na, nb) = trim_span(v, parts[0].0, parts[0].1);
    let (da, db) = trim_span(v, parts[1].0, parts[1].1);
    let (ia, ib) = trim_span(v, parts[2].0, parts[2].1);
    let version = if parts.len() > 3 {
        proof {
            assert(spans_view(v@, parts@)[3] == v@.subrange(parts@[3].0 as int, parts@[3].1 as int));
        }
        let (va, vb) = trim_span(v, parts[3].0, parts[3].1);
        if va < vb {
            Some(string_of(v, va, vb))
        } else {
            None
        }
    } else {
        None
    };
    if na == nb || ia == ib {
        return None;
    }
    let description = if da == db {
        "No description available".to_string()
    } else {
        string_of(v, da, db)
    };
    Some(
        SearchResult {
            backend: "flatpak".to_string(),
            name: string_of(v, na, nb),
            identifier: string_of(v, ia, ib),
            description,
            version,
        },
    )
}

/// The records in the output `s` of `flatpak search`, one per result line, in order.
pub fn parse_flatpak(s: &str) -> (r: Vec<SearchResult>)
    ensures
        views(r@) == lines(s@).filter_map(|l: Seq<char>| flatpak_record(l)),
{
    let v = chars_of(s);
    let ls = lines_span(&v);
    let ghost all = lines(v@);
    let mut out: Vec<SearchResult> = Vec::new();
    for k in 0..ls.len()
        invariant
            spans_in(v@, ls@),
            spans_view(v@, ls@) == all,
            views(out@) == all.take(k as int).filter_map(|l: Seq<char>| flatpak_record(l)),
    {
        let (lo, hi) = ls[k];
        let rec = flatpak_line(&v, lo, hi);
        proof {
            assert(all[k as int] == v@.subrange(lo as int, hi as int));
            assert(all.take(k + 1).drop_last() =~= all.take(k as int));
            assert(all.take(k + 1).last() == all[k as int]);
        }
        let ghost before = out@;
        match rec {
            Some(x) => {
                out.push(x);
                assert(flatpak_record(all[k as int]) == Some(x@));
                assert(views(out@) =~= views(before) + seq![x@]);
            },
            None => {
                assert(flatpak_record(all[k as int]) is None);
            },
        }
    }
    assert(all.take(ls.len() as int) =~= all);
    out
}

} // verus!
