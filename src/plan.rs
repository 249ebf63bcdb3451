//! Pre-flight planning of a run: configuration checks that end in a structured
//! decision, the estimated duration, and where results are written.

use vstd::prelude::*;

use crate::orchestrator::SetupError;
use crate::text::{decimal, decimal_of, trim_text, trimmed};

verus! {

/// A configuration that may proceed, but only once the operator confirms it.
#[derive(Debug, Clone, Copy, PartialEq, Eq, Structural)]
pub enum Caution {
    /// More simultaneous requests than advised.
    HighConcurrency,
    /// More workers than advised.
    ManyWorkers,
    /// A single dork was given, and API mode does not use it.
    IgnoredPayload,
}

pub open spec fn proxy_mode_decision(connections: nat, queries: nat, proxies: nat, workers: nat) -> Result<
    Seq<Caution>,
    SetupError,
> {
    if connections == 0 {
        Err(SetupError::ZeroBudget)
    } else if queries == 0 {
        Err(SetupError::NoQueries)
    } else if proxies == 0 {
        Err(SetupError::NoProxies)
    } else if workers == 0 {
        Err(SetupError::NoWorkers)
    } else {
        Ok(
            (if connections > 3 {
                seq![Caution::HighConcurrency]
            } else {
                Seq::empty()
            }) + (if workers > 5 {
                seq![Caution::ManyWorkers]
            } else {
                Seq::empty()
            }),
        )
    }
}

pub open spec fn api_mode_decision(connections: nat, sites: nat, payload_given: bool) -> Result<
    Seq<Caution>,
    SetupError,
> {
    if connections == 0 {
        Err(SetupError::ZeroBudget)
    } else if sites == 0 {
        Err(SetupError::NoQueries)
    } else {
        Ok(
            (if connections > 5 {
                seq![Caution::HighConcurrency]
            } else {
                Seq::empty()
            }) + (if payload_given {
                seq![Caution::IgnoredPayload]
            } else {
                Seq::empty()
            }),
        )
    }
}

pub open spec fn decision_view(r: Result<Vec<Caution>, SetupError>) -> Result<Seq<Caution>, SetupError> {
    match r {
        Ok(v) => Ok(v@),
        Err(e) => Err(e),
    }
}

/// Checks a proxy-mode configuration: the fatal errors first, then the cautions
/// that need the operator's confirmation.
pub fn proxy_mode_checks(connections: usize, queries: usize, proxies: usize, workers: usize) -> (r: Result<
    Vec<Caution>,
    SetupError,
>)
    ensures
        decision_view(r) == proxy_mode_decision(connections as nat, queries as nat, proxies as nat, workers as nat),
{
    if connections == 0 {
        return Err(SetupError::ZeroBudget);
    }
    if queries == 0 {
        return Err(SetupError::NoQueries);
    }
    if proxies == 0 {
        return Err(SetupError::NoProxies);
    }
    if workers == 0 {
        return Err(SetupError::NoWorkers);
    }
    let mut cautions: Vec<Caution> = Vec::new();
    if connections > 3 {
        cautions.push(Caution::HighConcurrency);
    }
    if workers > 5 {
        cautions.push(Caution::ManyWorkers);
    }
    proof {
        assert(cautions@ =~= proxy_mode_decision(
            connections as nat,
            queries as nat,
            proxies as nat,
            workers as nat,
        )->Ok_0);
    }
    Ok(cautions)
}

/// Checks an API-mode configuration.
pub fn api_mode_checks(connections: usize, sites: usize, payload_given: bool) -> (r: Result<
    Vec<Caution>,
    SetupError,
>)
    ensures
        decision_view(r) == api_mode_decision(connections as nat, sites as nat, payload_given),
{
    if connections == 0 {
        return Err(SetupError::ZeroBudget);
    }
    if sites == 0 {
        return Err(SetupError::NoQueries);
    }
    let mut cautions: Vec<Caution> = Vec::new();
    if connections > 5 {
        cautions.push(Caution::HighConcurrency);
    }
    if payload_given {
        cautions.push(Caution::IgnoredPayload);
    }
    proof {
        assert(cautions@ =~= api_mode_decision(connections as nat, sites as nat, payload_given)->Ok_0);
    }
    Ok(cautions)
}

/// Estimated seconds for a proxy-mode run: one second per query for each
/// simultaneous connection.
pub fn proxy_mode_eta(queries: usize, connections: usize) -> (r: u64)
    requires
        connections > 0,
    ensures
        r == queries / connections,
{
    (queries / connections) as u64
}

/// Estimated seconds for an API-mode run: the pacing delay (in milliseconds)
/// of every request, spread over the simultaneous connections; capped at the
/// largest `u64`.
pub fn api_mode_eta(requests: u64, delay_ms: u64, connections: u64) -> (r: u64)
    requires
        connections > 0,
    ensures
        r == if requests * delay_ms / (1000 * connections) > u64::MAX {
            u64::MAX as int
        } else {
            requests * delay_ms / (1000 * connections)
        },
{
    proof {
        assert(requests as int * delay_ms as int <= u64::MAX as int * u64::MAX as int) by (nonlinear_arith)
            requires
                0 <= requests <= u64::MAX,
                0 <= delay_ms <= u64::MAX,
        ;
    }
    let total: u128 = requests as u128 * delay_ms as u128;
    let per: u128 = 1000u128 * connections as u128;
    let secs: u128 = total / per;
    if secs > u64::MAX as u128 {
        u64::MAX
    } else {
        secs as u64
    }
}

pub open spec fn unit_text(n: nat, name: Seq<char>) -> Seq<char> {
    decimal_of(n) + seq![' '] + name + if n > 1 {
        seq!['s']
    } else {
        Seq::empty()
    }
}

pub open spec fn hour_word() -> Seq<char> {
    seq!['h', 'o', 'u', 'r']
}

pub open spec fn minute_word() -> Seq<char> {
    seq!['m', 'i', 'n', 'u', 't', 'e']
}

pub open spec fn second_word() -> Seq<char> {
    seq!['s', 'e', 'c', 'o', 'n', 'd']
}

/// The non-zero units of a duration; the seconds also when nothing else is.
pub open spec fn duration_parts(seconds: nat) -> Seq<Seq<char>> {
    let h = seconds / 3600;
    let m = (seconds % 3600) / 60;
    let s = seconds % 60;
    let hm = (if h > 0 {
        seq![unit_text(h, hour_word())]
    } else {
        Seq::empty()
    }) + (if m > 0 {
        seq![unit_text(m, minute_word())]
    } else {
        Seq::empty()
    });
    if s > 0 || hm.len() == 0 {
        hm.push(unit_text(s, second_word()))
    } else {
        hm
    }
}

/// Parts joined by `, `, the last one led by `and ` when there are several.
pub open spec fn listed(parts: Seq<Seq<char>>) -> Seq<char>
    decreases parts.len(),
{
    if parts.len() == 0 {
        Seq::empty()
    } else if parts.len() == 1 {
        parts[0]
    } else if parts.len() == 2 {
        parts[0] + seq![',', ' ', 'a', 'n', 'd', ' '] + parts[1]
    } else {
        parts[0] + seq![',', ' '] + listed(parts.drop_first())
    }
}

pub open spec fn duration_text(seconds: nat) -> Seq<char> {
    listed(duration_parts(seconds))
}

fn unit(n: u64, name: &str) -> (r: String)
    ensures
        r@ == unit_text(n as nat, name@),
{
    proof {
        reveal_strlit(" ");
        reveal_strlit("s");
    }
    let mut t = decimal(n);
    t.append(" ");
    t.append(name);
    if n > 1 {
        t.append("s");
    }
    proof {
        assert(t@ =~= unit_text(n as nat, name@));
    }
    t
}

/// A duration in words: `1 hour, 2 minutes, and 5 seconds`.
pub fn time_format(seconds: u64) -> (r: String)
    ensures
        r@ == duration_text(seconds as nat),
{
    proof {
        reveal_strlit("hour");
        reveal_strlit("minute");
        reveal_strlit("second");
        reveal_strlit(", ");
        reveal_strlit(", and ");
        assert("hour"@ =~= hour_word());
        assert("minute"@ =~= minute_word());
        assert("second"@ =~= second_word());
        assert(", "@ =~= seq![',', ' ']);
        assert(", and "@ =~= seq![',', ' ', 'a', 'n', 'd', ' ']);
    }
    let hours = seconds / 3600;
    let minutes = (seconds % 3600) / 60;
    let secs = seconds % 60;
    let mut parts: Vec<String> = Vec::new();
    if hours > 0 {
        parts.push(unit(hours, "hour"));
    }
    if minutes > 0 {
        parts.push(unit(minutes, "minute"));
    }
    if secs > 0 || parts.len() == 0 {
        parts.push(unit(secs, "second"));
    }
    let ghost pv = parts@.map_values(|p: String| p@);
    proof {
        assert(pv =~= duration_parts(seconds as nat));
    }
    let n = parts.len();
    if n == 1 {
        return parts[0].clone();
    }
    let mut out = String::new();
    let mut i: usize = 0;
    proof {
        assert(pv.skip(0) =~= pv);
        assert(out@ + listed(pv) =~= listed(pv));
    }
    while i < n
        invariant
            n == parts@.len(),
            2 <= n <= 3,
            pv == parts@.map_values(|p: String| p@),
            i <= n,
            out@ + listed(pv.skip(i as int)) == listed(pv),
        decreases n - i,
    {
        let ghost before = out@;
        let ghost rest = pv.skip(i as int);
        proof {
            reveal_strlit(", ");
            reveal_strlit(", and ");
            assert(", "@ =~= seq![',', ' ']);
            assert(", and "@ =~= seq![',', ' ', 'a', 'n', 'd', ' ']);
            assert(rest[0] == pv[i as int]);
            assert(pv[i as int] == parts@[i as int]@);
            assert(rest.drop_first() =~= pv.skip(i as int + 1));
        }
        out.append(parts[i].as_str());
        if i + 2 < n {
            out.append(", ");
            proof {
                assert(listed(rest) == rest[0] + seq![',', ' '] + listed(rest.drop_first()));
                assert(out@ + listed(pv.skip(i as int + 1)) =~= before + listed(rest));
            }
        } else if i + 2 == n {
            out.append(", and ");
            proof {
                assert(rest.len() == 2);
                assert(listed(rest) == rest[0] + seq![',', ' ', 'a', 'n', 'd', ' '] + rest[1]);
                let last = pv.skip(i as int + 1);
                assert(last.len() == 1);
                assert(last[0] == rest[1]);
                assert(listed(last) == rest[1]);
                assert(out@ + listed(last) =~= before + listed(rest));
            }
        } else {
            proof {
                assert(rest.len() == 1);
                assert(listed(pv.skip(i as int + 1)) == Seq::<char>::empty());
                assert(out@ + listed(pv.skip(i as int + 1)) =~= before + listed(rest));
            }
        }
        i = i + 1;
    }
    proof {
        assert(pv.skip(n as int) =~= Seq::<Seq<char>>::empty());
        assert(out@ + Seq::<char>::empty() =~= out@);
    }
    out
}

pub open spec fn default_name() -> Seq<char> {
    seq!['e', 'n', 'o', 'l', 'a']
}

/// The base name of the results file for a target: the target itself, or the
/// application's name for a blank target.
pub open spec fn base_name(target: Seq<char>) -> Seq<char> {
    if trimmed(target).len() == 0 {
        default_name()
    } else {
        target
    }
}

pub fn filename(target: &str) -> (r: String)
    ensures
        r@ == base_name(target@),
{
    proof {
        reveal_strlit("enola");
        assert("enola"@ =~= default_name());
    }
    if trim_text(target).unicode_len() == 0 {
        String::from_str("enola")
    } else {
        String::from_str(target)
    }
}

/// Where the results of a run are written.
pub enum OutputPlan {
    /// In the default results directory, under this file name.
    DefaultDirectory(String),
    /// In the given directory (created if needed), under this file name.
    InDirectory(String, String),
    /// At exactly this path (its parent created if needed).
    File(String),
}

pub open spec fn txt_name(target: Seq<char>) -> Seq<char> {
    base_name(target) + seq!['.', 't', 'x', 't']
}

/// Resolves an output override: none means the default directory; an existing
/// directory or a path ending in `/` receives `<name>.txt`; anything else is the
/// file itself.
pub fn output_plan(target: &str, output: Option<&str>, output_is_dir: bool) -> (r: OutputPlan)
    ensures
        match (output, r) {
            (None, OutputPlan::DefaultDirectory(name)) => name@ == txt_name(target@),
            (Some(p), OutputPlan::InDirectory(dir, name)) => (output_is_dir || (p@.len() > 0 && p@.last()
                == '/')) && dir@ == p@ && name@ == txt_name(target@),
            (Some(p), OutputPlan::File(path)) => !(output_is_dir || (p@.len() > 0 && p@.last() == '/'))
                && path@ == p@,
            _ => false,
        },
{
    proof {
        reveal_strlit(".txt");
        assert(".txt"@ =~= seq!['.', 't', 'x', 't']);
    }
    let mut name = filename(target);
    name.append(".txt");
    match output {
        None => OutputPlan::DefaultDirectory(name),
        Some(p) => {
            let n = p.unicode_len();
            let slash = n > 0 && p.get_char(n - 1) == '/';
            if output_is_dir || slash {
                OutputPlan::InDirectory(String::from_str(p), name)
            } else {
                OutputPlan::File(String::from_str(p))
            }
        },
    }
}

/// Where the default results directory lies.
#[derive(Debug, Clone, Copy, PartialEq, Eq, Structural)]
pub enum ResultsLocation {
    /// `results` beside the executable, when it runs from a source checkout.
    BesideExecutable,
    /// The application's data directory under the home directory.
    UnderHome,
    /// `./results`, when there is no home directory.
    WorkingDirectory,
}

pub fn results_location(source_checkout: bool, has_home: bool) -> (r: ResultsLocation)
    ensures
        r == if source_checkout {
            ResultsLocation::BesideExecutable
        } else if has_home {
            ResultsLocation::UnderHome
        } else {
            ResultsLocation::WorkingDirectory
        },
{
    if source_checkout {
        ResultsLocation::BesideExecutable
    } else if has_home {
        ResultsLocation::UnderHome
    } else {
        ResultsLocation::WorkingDirectory
    }
}

} // verus!
