//! Expansion of dork templates against a list of sites.
//!
//! A template line may hold the placeholder `SITE`, replaced by the site, and
//! `STRING`, replaced by the target. Every occurrence is replaced, scanning left
//! to right; text around the placeholders is kept as it is.

use vstd::prelude::*;

verus! {

pub open spec fn site_token() -> Seq<char> {
    seq!['S', 'I', 'T', 'E']
}

pub open spec fn target_token() -> Seq<char> {
    seq!['S', 'T', 'R', 'I', 'N', 'G']
}

/// The pattern that finds either placeholder.
pub open spec fn token_pattern() -> Seq<char> {
    site_token() + seq!['|'] + target_token()
}

pub open spec fn starts_with(s: Seq<char>, prefix: Seq<char>) -> bool {
    prefix.len() <= s.len() && s.subrange(0, prefix.len() as int) == prefix
}

/// A placeholder begins at position `i` of `s`.
pub open spec fn token_at(s: Seq<char>, i: int) -> bool {
    starts_with(s.skip(i), site_token()) || starts_with(s.skip(i), target_token())
}

pub open spec fn token_free(s: Seq<char>) -> bool {
    forall|i: int| 0 <= i < s.len() ==> !#[trigger] token_at(s, i)
}

/// A letter that occurs in a placeholder.
pub open spec fn token_letter(c: char) -> bool {
    c == 'S' || c == 'I' || c == 'T' || c == 'E' || c == 'R' || c == 'N' || c == 'G'
}

/// `line` with every placeholder replaced, scanning left to right.
pub open spec fn substituted(line: Seq<char>, site: Seq<char>, target: Seq<char>) -> Seq<char>
    decreases line.len(),
{
    if line.len() == 0 {
        Seq::empty()
    } else if starts_with(line, site_token()) {
        site + substituted(line.skip(4), site, target)
    } else if starts_with(line, target_token()) {
        target + substituted(line.skip(6), site, target)
    } else {
        seq![line[0]] + substituted(line.skip(1), site, target)
    }
}

/// The full cross product: for each site in order, each template in order.
pub open spec fn expanded(sites: Seq<Seq<char>>, templates: Seq<Seq<char>>, target: Seq<char>) -> Seq<
    Seq<char>,
>
    decreases sites.len(),
{
    if sites.len() == 0 {
        Seq::empty()
    } else {
        expanded(sites.drop_last(), templates, target) + templates.map_values(
            |t: Seq<char>| substituted(t, sites.last(), target),
        )
    }
}

/// A value that can never help form a placeholder: it is not empty and holds
/// none of the placeholders' letters.
pub open spec fn inert(v: Seq<char>) -> bool {
    v.len() > 0 && forall|i: int| 0 <= i < v.len() ==> !token_letter(#[trigger] v[i])
}

proof fn lemma_skip_skip(s: Seq<char>, a: int, b: int)
    requires
        0 <= a,
        0 <= b,
        a + b <= s.len(),
    ensures
        s.skip(a).skip(b) =~= s.skip(a + b),
{
}

/// A template without placeholders is returned verbatim, whatever the site and
/// the target.
pub proof fn lemma_token_free_template_unchanged(t: Seq<char>, site: Seq<char>, target: Seq<char>)
    requires
        token_free(t),
    ensures
        substituted(t, site, target) == t,
    decreases t.len(),
{
    if t.len() > 0 {
        assert(!token_at(t, 0));
        assert(t.skip(0) =~= t);
        let rest = t.skip(1);
        assert forall|i: int| 0 <= i < rest.len() implies !#[trigger] token_at(rest, i) by {
            lemma_skip_skip(t, 1, i);
            assert(!token_at(t, i + 1));
        }
        lemma_token_free_template_unchanged(rest, site, target);
        assert(seq![t[0]] + rest =~= t);
    }
}

/// When the first `k` characters of an expansion are all placeholder letters,
/// they were copied from the template as they stand.
proof fn lemma_letters_come_from_template(t: Seq<char>, site: Seq<char>, target: Seq<char>, k: int)
    requires
        inert(site),
        inert(target),
        0 <= k <= substituted(t, site, target).len(),
        forall|m: int| 0 <= m < k ==> token_letter(#[trigger] substituted(t, site, target)[m]),
    ensures
        k <= t.len(),
        t.take(k) == substituted(t, site, target).take(k),
    decreases k,
{
    let out = substituted(t, site, target);
    if k > 0 {
        assert(token_letter(out[0]));
        if starts_with(t, site_token()) {
            assert(out[0] == site[0]);
        } else if starts_with(t, target_token()) {
            assert(out[0] == target[0]);
        } else {
            let rest = substituted(t.skip(1), site, target);
            assert(out == seq![t[0]] + rest);
            assert forall|m: int| 0 <= m < k - 1 implies token_letter(#[trigger] rest[m]) by {
                assert(rest[m] == out[m + 1]);
            }
            lemma_letters_come_from_template(t.skip(1), site, target, k - 1);
            assert(t.take(k) =~= seq![t[0]] + t.skip(1).take(k - 1));
            assert(out.take(k) =~= seq![t[0]] + rest.take(k - 1));
        }
    }
}

proof fn lemma_token_letters(s: Seq<char>, i: int)
    requires
        0 <= i < s.len(),
        token_at(s, i),
    ensures
        s[i] == 'S',
        forall|m: int| i <= m < i + 4 ==> m < s.len() && token_letter(#[trigger] s[m]),
        starts_with(s.skip(i), target_token()) ==> forall|m: int|
            i <= m < i + 6 ==> m < s.len() && token_letter(#[trigger] s[m]),
{
    let u = s.skip(i);
    if starts_with(u, site_token()) {
        assert forall|m: int| i <= m < i + 4 implies m < s.len() && token_letter(#[trigger] s[m]) by {
            assert(u.subrange(0, 4)[m - i] == site_token()[m - i]);
        }
        assert(u.subrange(0, 4)[0] == site_token()[0]);
    }
    if starts_with(u, target_token()) {
        assert forall|m: int| i <= m < i + 6 implies m < s.len() && token_letter(#[trigger] s[m]) by {
            assert(u.subrange(0, 6)[m - i] == target_token()[m - i]);
        }
        assert(u.subrange(0, 6)[0] == target_token()[0]);
    }
}

/// Once expanded with inert values, a template holds no placeholder at all.
pub proof fn lemma_no_token_left(t: Seq<char>, site: Seq<char>, target: Seq<char>)
    requires
        inert(site),
        inert(target),
    ensures
        token_free(substituted(t, site, target)),
    decreases t.len(),
{
    let out = substituted(t, site, target);
    if t.len() > 0 {
        let n: int = if starts_with(t, site_token()) {
            4
        } else if starts_with(t, target_token()) {
            6
        } else {
            1
        };
        let piece = if n == 4 {
            site
        } else if n == 6 {
            target
        } else {
            seq![t[0]]
        };
        let rest = substituted(t.skip(n), site, target);
        lemma_no_token_left(t.skip(n), site, target);
        assert(out == piece + rest);
        assert forall|i: int| 0 <= i < out.len() implies !#[trigger] token_at(out, i) by {
            if token_at(out, i) {
                lemma_token_letters(out, i);
                if i >= piece.len() {
                    assert(out.skip(i) =~= rest.skip(i - piece.len()));
                    assert(token_at(rest, i - piece.len()));
                } else if n != 1 {
                    assert(out[i] == piece[i]);
                } else {
                    let l: int = if starts_with(out.skip(i), site_token()) {
                        4
                    } else {
                        6
                    };
                    let tok = if l == 4 {
                        site_token()
                    } else {
                        target_token()
                    };
                    assert(out.subrange(0, l) == tok);
                    assert forall|m: int| 0 <= m < l - 1 implies token_letter(#[trigger] rest[m]) by {
                        assert(rest[m] == out[m + 1]);
                    }
                    lemma_letters_come_from_template(t.skip(1), site, target, l - 1);
                    assert(t.subrange(0, l) =~= seq![t[0]] + t.skip(1).take(l - 1));
                    assert(out.subrange(0, l) =~= seq![t[0]] + rest.take(l - 1));
                    assert(starts_with(t, tok));
                }
            }
        }
    }
}

/// The expansion of S sites and T templates holds exactly S×T queries: the one at
/// `i * T + j` is template `j` expanded for site `i`.
pub proof fn lemma_expansion_shape(sites: Seq<Seq<char>>, templates: Seq<Seq<char>>, target: Seq<char>)
    ensures
        expanded(sites, templates, target).len() == sites.len() * templates.len(),
        forall|i: int, j: int|
            0 <= i < sites.len() && 0 <= j < templates.len() ==> #[trigger] expanded(sites, templates, target)[i
                * templates.len() + j] == substituted(templates[j], sites[i], target),
    decreases sites.len(),
{
    let tl = templates.len() as int;
    if sites.len() > 0 {
        let front = sites.drop_last();
        lemma_expansion_shape(front, templates, target);
        let e = expanded(sites, templates, target);
        let f = expanded(front, templates, target);
        assert(f.len() == front.len() * tl);
        assert(e.len() == sites.len() * tl) by (nonlinear_arith)
            requires
                e.len() == f.len() + tl,
                f.len() == front.len() * tl,
                sites.len() == front.len() + 1,
        ;
        assert forall|i: int, j: int| 0 <= i < sites.len() && 0 <= j < tl implies #[trigger] e[i * tl + j]
            == substituted(templates[j], sites[i], target) by {
            if i < front.len() {
                assert(i * tl + j < front.len() * tl) by (nonlinear_arith)
                    requires
                        i < front.len(),
                        0 <= j < tl,
                ;
                assert(front[i] == sites[i]);
            } else {
                assert(i * tl == f.len()) by (nonlinear_arith)
                    requires
                        i == front.len(),
                        f.len() == front.len() * tl,
                ;
            }
        }
    }
}

/// Cross-product completeness: S sites and T templates give S×T queries, each a
/// template with every placeholder replaced; when the sites and the target are
/// inert, no placeholder is left in any query.
pub proof fn lemma_cross_product_complete(sites: Seq<Seq<char>>, templates: Seq<Seq<char>>, target: Seq<char>)
    ensures
        expanded(sites, templates, target).len() == sites.len() * templates.len(),
        forall|i: int, j: int|
            0 <= i < sites.len() && 0 <= j < templates.len() ==> #[trigger] expanded(sites, templates, target)[i
                * templates.len() + j] == substituted(templates[j], sites[i], target),
        (forall|i: int| 0 <= i < sites.len() ==> inert(#[trigger] sites[i])) && inert(target) ==> forall|k: int|
            0 <= k < expanded(sites, templates, target).len() ==> token_free(
                #[trigger] expanded(sites, templates, target)[k],
            ),
    decreases sites.len(),
{
    lemma_expansion_shape(sites, templates, target);
    if (forall|i: int| 0 <= i < sites.len() ==> inert(#[trigger] sites[i])) && inert(target) {
        if sites.len() > 0 {
            let front = sites.drop_last();
            assert forall|i: int| 0 <= i < front.len() implies inert(#[trigger] front[i]) by {
                assert(front[i] == sites[i]);
            }
            lemma_cross_product_complete(front, templates, target);
            let e = expanded(sites, templates, target);
            let f = expanded(front, templates, target);
            assert forall|k: int| 0 <= k < e.len() implies token_free(#[trigger] e[k]) by {
                if k < f.len() {
                    assert(e[k] == f[k]);
                } else {
                    let j = k - f.len();
                    assert(e[k] == substituted(templates[j], sites.last(), target));
                    lemma_no_token_left(templates[j], sites.last(), target);
                }
            }
        }
    }
}

/// The value that a matched placeholder stands for.
pub fn token_value<'a>(matched: &str, site: &'a str, target: &'a str) -> (r: &'a str)
    ensures
        matched@ == site_token() ==> r@ == site@,
        matched@ == target_token() ==> r@ == target@,
{
    if matched.unicode_len() == 4 {
        site
    } else {
        target
    }
}

/// Relies on `regex::Regex::new`, which compiles the pattern `SITE|STRING`, and
/// `Regex::replace_all`, which hands each leftmost-first, non-overlapping match,
/// scanning left to right, to the closure and puts what it returns in its place.
#[verifier::external_body]
fn replace_tokens(pattern: &str, line: &str, site: &str, target: &str) -> (r: String)
    requires
        pattern@ == token_pattern(),
    ensures
        r@ == substituted(line@, site@, target@),
{
    let re = regex::Regex::new(pattern).unwrap();
    re.replace_all(line, |caps: &regex::Captures| token_value(&caps[0], site, target).to_string())
        .into_owned()
}

/// Each template of `list` with its placeholders replaced by `site` and `string`.
pub fn replacer(list: &Vec<String>, site: &str, string: &str) -> (r: Vec<String>)
    ensures
        r@.len() == list@.len(),
        forall|j: int| 0 <= j < list@.len() ==> #[trigger] r@[j]@ == substituted(list@[j]@, site@, string@),
{
    let mut out: Vec<String> = Vec::new();
    let mut j: usize = 0;
    while j < list.len()
        invariant
            j <= list@.len(),
            out@.len() == j,
            forall|k: int| 0 <= k < j ==> #[trigger] out@[k]@ == substituted(list@[k]@, site@, string@),
        decreases list@.len() - j,
    {
        proof {
            reveal_strlit("SITE|STRING");
            assert("SITE|STRING"@ =~= token_pattern());
        }
        out.push(replace_tokens("SITE|STRING", list[j].as_str(), site, string));
        j = j + 1;
    }
    out
}

/// The two lists a query set is built from.
pub struct QueryBuilder {
    sites: Vec<String>,
    payloads: Vec<String>,
}

impl QueryBuilder {
    pub fn new(sites: Vec<String>, payloads: Vec<String>) -> (r: QueryBuilder)
        ensures
            r.get_sites()@ == sites@,
            r.get_payloads()@ == payloads@,
    {
        QueryBuilder { sites, payloads }
    }

    #[verifier::when_used_as_spec(spec_sites)]
    pub fn get_sites(&self) -> (r: &Vec<String>)
        ensures
            r == self.spec_sites(),
    {
        &self.sites
    }

    #[verifier::when_used_as_spec(spec_payloads)]
    pub fn get_payloads(&self) -> (r: &Vec<String>)
        ensures
            r == self.spec_payloads(),
    {
        &self.payloads
    }

    pub closed spec fn spec_sites(&self) -> &Vec<String> {
        &self.sites
    }

    pub closed spec fn spec_payloads(&self) -> &Vec<String> {
        &self.payloads
    }
}

/// A query set: sites, templates and the target they are expanded with.
pub struct Query {
    builder: QueryBuilder,
    target: String,
}

impl Query {
    pub closed spec fn sites(&self) -> Seq<Seq<char>> {
        self.builder.sites@.map_values(|s: String| s@)
    }

    pub closed spec fn templates(&self) -> Seq<Seq<char>> {
        self.builder.payloads@.map_values(|s: String| s@)
    }

    pub closed spec fn target(&self) -> Seq<char> {
        self.target@
    }

    pub fn new(sites: Vec<String>, payloads: Vec<String>, target: &str) -> (r: Query)
        ensures
            r.sites() == sites@.map_values(|s: String| s@),
            r.templates() == payloads@.map_values(|s: String| s@),
            r.target() == target@,
    {
        Query { builder: QueryBuilder::new(sites, payloads), target: String::from_str(target) }
    }

    /// Every template expanded for every site: sites in the outer order,
    /// templates in the inner one.
    pub fn build(&self) -> (r: Vec<String>)
        ensures
            r@.map_values(|s: String| s@) == expanded(self.sites(), self.templates(), self.target()),
    {
        let sites = self.builder.get_sites();
        let payloads = self.builder.get_payloads();
        let mut out: Vec<String> = Vec::new();
        let mut i: usize = 0;
        while i < sites.len()
            invariant
                sites == self.builder.sites,
                payloads == self.builder.payloads,
                i <= sites@.len(),
                out@.map_values(|s: String| s@) == expanded(
                    self.sites().take(i as int),
                    self.templates(),
                    self.target(),
                ),
            decreases sites@.len() - i,
        {
            let row = replacer(payloads, sites[i].as_str(), self.target.as_str());
            let ghost before = out@;
            let mut j: usize = 0;
            while j < row.len()
                invariant
                    j <= row@.len(),
                    out@ == before + row@.take(j as int),
                decreases row@.len() - j,
            {
                out.push(row[j].clone());
                j = j + 1;
                proof {
                    assert(out@ =~= before + row@.take(j as int));
                }
            }
            proof {
                let prefix = self.sites().take(i as int + 1);
                assert(prefix.drop_last() =~= self.sites().take(i as int));
                assert(prefix.last() == sites@[i as int]@);
                assert(row@.take(j as int) =~= row@);
                assert(row@.map_values(|s: String| s@) =~= self.templates().map_values(
                    |t: Seq<char>| substituted(t, prefix.last(), self.target()),
                ));
                assert(out@.map_values(|s: String| s@) =~= before.map_values(|s: String| s@)
                    + row@.map_values(|s: String| s@));
            }
            i = i + 1;
        }
        proof {
            assert(self.sites().take(i as int) =~= self.sites());
        }
        out
    }
}

} // verus!
