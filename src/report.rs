//! Text that crosses the library's edge: entries of a list file, the workers'
//! diagnostics, and what is kept and written of the findings.

use vstd::prelude::*;

use crate::extract::views;
use crate::text::{
    before_first, contains, decimal, decimal_of, lemma_split_before_first, lemma_split_on_char,
    split_first, up_to,
};

verus! {

pub open spec fn strip_cr(line: Seq<char>) -> Seq<char> {
    if line.len() > 0 && line.last() == '\r' {
        line.drop_last()
    } else {
        line
    }
}

/// The entries of a list file: one per non-empty line, a line ending at `\n`
/// (a `\r` before it is dropped).
pub open spec fn entries_of(s: Seq<char>) -> Seq<Seq<char>>
    decreases s.len(),
{
    if s.len() == 0 {
        Seq::empty()
    } else {
        let line = up_to(s, '\n');
        let e = strip_cr(line);
        let head = if e.len() == 0 {
            Seq::empty()
        } else {
            seq![e]
        };
        if line.len() >= s.len() {
            head
        } else {
            head + entries_of(s.skip(line.len() as int + 1))
        }
    }
}

pub open spec fn string_views(v: Seq<String>) -> Seq<Seq<char>> {
    v.map_values(|s: String| s@)
}

fn without_cr(line: &str) -> (r: &str)
    ensures
        r@ == strip_cr(line@),
{
    let n = line.unicode_len();
    if n > 0 && line.get_char(n - 1) == '\r' {
        line.substring_char(0, n - 1)
    } else {
        line
    }
}

/// The entries of a list file's text.
pub fn list_entries(text: &str) -> (r: Vec<String>)
    ensures
        string_views(r@) == entries_of(text@),
{
    proof {
        reveal_strlit("\n");
        assert("\n"@ =~= seq!['\n']);
    }
    let mut out: Vec<String> = Vec::new();
    let mut rest: &str = text;
    proof {
        assert(string_views(out@) + entries_of(rest@) =~= entries_of(text@));
    }
    loop
        invariant
            "\n"@ == seq!['\n'],
            string_views(out@) + entries_of(rest@) == entries_of(text@),
        decreases rest@.len(),
    {
        let ghost before = out@;
        match split_first(rest, "\n") {
            Some((line, after)) => {
                proof {
                    lemma_split_on_char(rest@, '\n', line@, after@);
                }
                let entry = without_cr(line);
                if entry.unicode_len() > 0 {
                    out.push(String::from_str(entry));
                }
                proof {
                    assert(string_views(out@) + entries_of(after@) =~= string_views(before) + entries_of(
                        rest@,
                    ));
                }
                rest = after;
            },
            None => {
                proof {
                    lemma_split_on_char(rest@, '\n', Seq::empty(), Seq::empty());
                }
                let entry = without_cr(rest);
                if entry.unicode_len() > 0 {
                    out.push(String::from_str(entry));
                }
                proof {
                    assert(string_views(out@) =~= string_views(before) + entries_of(rest@));
                }
                return out;
            },
        }
    }
}

pub open spec fn scheme_separator() -> Seq<char> {
    seq![':', '/', '/']
}

/// The host part of a proxy address: the text between the first `://` and the
/// next one; the whole address when it has no scheme.
pub open spec fn host_of(proxy: Seq<char>) -> Seq<char> {
    let sep = scheme_separator();
    if contains(proxy, sep) {
        before_first(proxy.skip(before_first(proxy, sep).len() as int + 3), sep)
    } else {
        proxy
    }
}

pub fn proxy_host(proxy: &str) -> (r: &str)
    ensures
        r@ == host_of(proxy@),
{
    proof {
        reveal_strlit("://");
        assert("://"@ =~= scheme_separator());
    }
    match split_first(proxy, "://") {
        Some((scheme, rest)) => {
            proof {
                lemma_split_before_first(proxy@, scheme_separator(), scheme@, rest@);
            }
            match split_first(rest, "://") {
                Some((host, tail)) => {
                    proof {
                        lemma_split_before_first(rest@, scheme_separator(), host@, tail@);
                    }
                    host
                },
                None => {
                    proof {
                        lemma_split_before_first(rest@, scheme_separator(), Seq::empty(), Seq::empty());
                    }
                    rest
                },
            }
        },
        None => proxy,
    }
}

pub open spec fn fetch_report_text(worker: nat, proxy: Seq<char>, url: Seq<char>, success: bool) -> Seq<
    char,
> {
    seq!['[', '#'] + decimal_of(worker) + seq![' ', '=', '>', ' '] + host_of(proxy) + seq![']', ' ']
        + (if success {
        "Successfully fetched "@
    } else {
        "Failed to fetch "@
    }) + url
}

/// The diagnostic a worker emits when an attempt completes.
pub fn fetch_report(worker: u64, proxy: &str, url: &str, success: bool) -> (r: String)
    ensures
        r@ == fetch_report_text(worker as nat, proxy@, url@, success),
{
    proof {
        reveal_strlit("[#");
        reveal_strlit(" => ");
        reveal_strlit("] ");
    }
    let mut t = String::from_str("[#");
    t.append(decimal(worker).as_str());
    t.append(" => ");
    t.append(proxy_host(proxy));
    t.append("] ");
    if success {
        t.append("Successfully fetched ");
    } else {
        t.append("Failed to fetch ");
    }
    t.append(url);
    proof {
        assert(t@ =~= fetch_report_text(worker as nat, proxy@, url@, success));
    }
    t
}

/// The diagnostic a worker emits when it leaves the run.
pub fn exit_report(worker: u64) -> (r: String)
    ensures
        r@ == seq!['[', '#'] + decimal_of(worker as nat) + "]: Receiver closed"@,
{
    proof {
        reveal_strlit("[#");
    }
    let mut t = String::from_str("[#");
    t.append(decimal(worker).as_str());
    t.append("]: Receiver closed");
    t
}

pub open spec fn complete(f: (Seq<char>, Seq<char>, Seq<char>)) -> bool {
    f.0.len() > 0 && f.1.len() > 0 && f.2.len() > 0
}

/// The findings whose title, link and description are all non-empty, in order.
pub open spec fn complete_only(fs: Seq<(Seq<char>, Seq<char>, Seq<char>)>) -> Seq<
    (Seq<char>, Seq<char>, Seq<char>),
>
    decreases fs.len(),
{
    if fs.len() == 0 {
        Seq::empty()
    } else {
        complete_only(fs.drop_last()) + if complete(fs.last()) {
            seq![fs.last()]
        } else {
            Seq::empty()
        }
    }
}

/// The findings worth reporting: those with no empty field.
pub fn reportable(found: &Vec<(String, String, String)>) -> (r: Vec<(String, String, String)>)
    ensures
        views(r@) == complete_only(views(found@)),
{
    let mut out: Vec<(String, String, String)> = Vec::new();
    let mut i: usize = 0;
    while i < found.len()
        invariant
            i <= found@.len(),
            views(out@) == complete_only(views(found@.take(i as int))),
        decreases found@.len() - i,
    {
        let ghost before = out@;
        let f = &found[i];
        if f.0.as_str().unicode_len() > 0 && f.1.as_str().unicode_len() > 0 && f.2.as_str().unicode_len() > 0 {
            out.push((f.0.clone(), f.1.clone(), f.2.clone()));
        }
        proof {
            let t = views(found@.take(i as int + 1));
            assert(t.drop_last() =~= views(found@.take(i as int)));
            assert(t.last() == (f.0@, f.1@, f.2@));
            assert(views(out@) =~= complete_only(t));
        }
        i = i + 1;
    }
    proof {
        assert(found@.take(i as int) =~= found@);
    }
    out
}

pub open spec fn record_text(f: (Seq<char>, Seq<char>, Seq<char>)) -> Seq<char> {
    "Title: "@ + f.0 + "\nLink: "@ + f.1 + "\nDescription: "@ + f.2 + "\n\n"@
}

/// How a finding is written to the results file.
pub fn finding_record(f: &(String, String, String)) -> (r: String)
    ensures
        r@ == record_text((f.0@, f.1@, f.2@)),
{
    let mut t = String::from_str("Title: ");
    t.append(f.0.as_str());
    t.append("\nLink: ");
    t.append(f.1.as_str());
    t.append("\nDescription: ");
    t.append(f.2.as_str());
    t.append("\n\n");
    t
}

} // verus!
