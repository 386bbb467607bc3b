//! Placeholder substitution: replacing `{key}` tokens in a template with the
//! values of one data row, and finding the tokens no row value matches.
use vstd::prelude::*;

verus! {

/// A character that ends the scan of a placeholder token: `{` restarts the
/// token, a space cancels it, and `}` closes it.
pub open spec fn is_stop(c: char) -> bool {
    c == '{' || c == '}' || c == ' '
}

/// Index of the first stop character of `t` at or after `i`, or `t.len()`
/// if there is none.
pub open spec fn first_stop(t: Seq<char>, i: int) -> int
    decreases t.len() - i,
{
    if i < 0 || i >= t.len() {
        t.len() as int
    } else if is_stop(t[i]) {
        i
    } else {
        first_stop(t, i + 1)
    }
}

proof fn lemma_first_stop_bounds(t: Seq<char>, i: int)
    requires
        0 <= i <= t.len(),
    ensures
        i <= first_stop(t, i) <= t.len(),
        forall|m: int| i <= m < first_stop(t, i) ==> !is_stop(t[m]),
        first_stop(t, i) < t.len() ==> is_stop(t[first_stop(t, i)]),
    decreases t.len() - i,
{
    if i < t.len() && !is_stop(t[i]) {
        lemma_first_stop_bounds(t, i + 1);
    }
}

/// A pointwise description of the scan pins `first_stop` down.
proof fn lemma_first_stop_at(t: Seq<char>, i: int, j: int)
    requires
        0 <= i <= j <= t.len(),
        forall|m: int| i <= m < j ==> !is_stop(t[m]),
        j < t.len() ==> is_stop(t[j]),
    ensures
        first_stop(t, i) == if j < t.len() { j } else { t.len() as int },
    decreases j - i,
{
    if i < j {
        lemma_first_stop_at(t, i + 1, j);
    }
}

/// The text that substituting into the suffix of `t` starting at `i` yields:
/// each closed token `{key}` becomes the row's value for `key` when the row
/// holds the key, and stays literal text when it does not; a space cancels
/// the token under scan; a second `{` restarts it; an unterminated token is
/// literal text.
pub open spec fn subst_from(t: Seq<char>, row: Map<Seq<char>, Seq<char>>, i: int) -> Seq<char>
    decreases t.len() - i,
    via subst_from_decreases
{
    if i < 0 || i >= t.len() {
        Seq::empty()
    } else if t[i] != '{' {
        seq![t[i]] + subst_from(t, row, i + 1)
    } else {
        let j = first_stop(t, i + 1);
        if j >= t.len() {
            t.subrange(i, t.len() as int)
        } else if t[j] == '}' {
            let key = t.subrange(i + 1, j);
            (if row.contains_key(key) {
                row[key]
            } else {
                t.subrange(i, j + 1)
            }) + subst_from(t, row, j + 1)
        } else if t[j] == ' ' {
            t.subrange(i, j + 1) + subst_from(t, row, j + 1)
        } else {
            t.subrange(i, j) + subst_from(t, row, j)
        }
    }
}

#[via_fn]
proof fn subst_from_decreases(t: Seq<char>, row: Map<Seq<char>, Seq<char>>, i: int) {
    if 0 <= i < t.len() && t[i] == '{' {
        lemma_first_stop_bounds(t, i + 1);
    }
}

/// What `substitute` returns for template `t` and row `row`.
pub open spec fn subst_spec(t: Seq<char>, row: Map<Seq<char>, Seq<char>>) -> Seq<char> {
    subst_from(t, row, 0)
}

/// The keys of the closed tokens in the suffix of `t` starting at `i` that
/// the row does not hold, one entry per occurrence, in scan order.
pub open spec fn unmatched_from(t: Seq<char>, row: Map<Seq<char>, Seq<char>>, i: int) -> Seq<
    Seq<char>,
>
    decreases t.len() - i,
    via unmatched_from_decreases
{
    if i < 0 || i >= t.len() {
        Seq::empty()
    } else if t[i] != '{' {
        unmatched_from(t, row, i + 1)
    } else {
        let j = first_stop(t, i + 1);
        if j >= t.len() {
            Seq::empty()
        } else if t[j] == '}' {
            let key = t.subrange(i + 1, j);
            (if row.contains_key(key) {
                Seq::empty()
            } else {
                seq![key]
            }) + unmatched_from(t, row, j + 1)
        } else if t[j] == ' ' {
            unmatched_from(t, row, j + 1)
        } else {
            unmatched_from(t, row, j)
        }
    }
}

#[via_fn]
proof fn unmatched_from_decreases(t: Seq<char>, row: Map<Seq<char>, Seq<char>>, i: int) {
    if 0 <= i < t.len() && t[i] == '{' {
        lemma_first_stop_bounds(t, i + 1);
    }
}

/// What `find_unmatched_placeholders` returns for template `t` and row `row`.
pub open spec fn unmatched_spec(t: Seq<char>, row: Map<Seq<char>, Seq<char>>) -> Seq<Seq<char>> {
    unmatched_from(t, row, 0)
}

/// The literal text of the token `{k}`.
pub open spec fn brace(k: Seq<char>) -> Seq<char> {
    seq!['{'] + k + seq!['}']
}

proof fn lemma_first_stop_shift(t: Seq<char>, d: int, i: int)
    requires
        0 <= d <= i <= t.len(),
    ensures
        first_stop(t.skip(d), i - d) == first_stop(t, i) - d,
    decreases t.len() - i,
{
    if i < t.len() && !is_stop(t[i]) {
        lemma_first_stop_shift(t, d, i + 1);
    }
}

proof fn lemma_subst_shift(t: Seq<char>, row: Map<Seq<char>, Seq<char>>, d: int, i: int)
    requires
        0 <= d <= i <= t.len(),
    ensures
        subst_from(t, row, i) == subst_from(t.skip(d), row, i - d),
    decreases t.len() - i,
{
    let s = t.skip(d);
    if i == t.len() {
    } else if t[i] != '{' {
        lemma_subst_shift(t, row, d, i + 1);
    } else {
        lemma_first_stop_shift(t, d, i + 1);
        lemma_first_stop_bounds(t, i + 1);
        let j = first_stop(t, i + 1);
        if j >= t.len() {
            assert(t.subrange(i, t.len() as int) =~= s.subrange(i - d, s.len() as int));
        } else if t[j] == '}' {
            assert(t.subrange(i + 1, j) =~= s.subrange(i - d + 1, j - d));
            assert(t.subrange(i, j + 1) =~= s.subrange(i - d, j - d + 1));
            lemma_subst_shift(t, row, d, j + 1);
        } else if t[j] == ' ' {
            assert(t.subrange(i, j + 1) =~= s.subrange(i - d, j - d + 1));
            lemma_subst_shift(t, row, d, j + 1);
        } else {
            assert(t.subrange(i, j) =~= s.subrange(i - d, j - d));
            lemma_subst_shift(t, row, d, j);
        }
    }
}

proof fn lemma_unmatched_shift(t: Seq<char>, row: Map<Seq<char>, Seq<char>>, d: int, i: int)
    requires
        0 <= d <= i <= t.len(),
    ensures
        unmatched_from(t, row, i) == unmatched_from(t.skip(d), row, i - d),
    decreases t.len() - i,
{
    let s = t.skip(d);
    if i == t.len() {
    } else if t[i] != '{' {
        lemma_unmatched_shift(t, row, d, i + 1);
    } else {
        lemma_first_stop_shift(t, d, i + 1);
        lemma_first_stop_bounds(t, i + 1);
        let j = first_stop(t, i + 1);
        if j >= t.len() {
        } else if t[j] == '}' {
            assert(t.subrange(i + 1, j) =~= s.subrange(i - d + 1, j - d));
            lemma_unmatched_shift(t, row, d, j + 1);
        } else if t[j] == ' ' {
            lemma_unmatched_shift(t, row, d, j + 1);
        } else {
            lemma_unmatched_shift(t, row, d, j);
        }
    }
}

/// Law: text without `{` passes through substitution unchanged and makes
/// the validator report nothing.
pub proof fn lemma_substitute_literal(t: Seq<char>, row: Map<Seq<char>, Seq<char>>)
    requires
        forall|i: int| 0 <= i < t.len() ==> t[i] != '{',
    ensures
        subst_spec(t, row) == t,
        unmatched_spec(t, row) == Seq::<Seq<char>>::empty(),
    decreases t.len(),
{
    if t.len() > 0 {
        lemma_subst_shift(t, row, 1, 1);
        lemma_unmatched_shift(t, row, 1, 1);
        lemma_substitute_literal(t.skip(1), row);
        assert(seq![t[0]] + t.skip(1) =~= t);
    }
}

/// Law: substitution treats each placeholder independently. For literal
/// text `pre` (free of `{`), a well-formed token `{k}` (its key free of
/// stop characters), and any rest of the template: the token becomes the
/// row's value exactly when the row holds `k` and stays literal text when
/// it does not; the substituted value is never scanned again; and the rest
/// of the template is substituted on its own, so no text is replaced twice.
/// By the same decomposition the validator reports `k`, once, exactly when
/// the row does not hold it, before whatever it reports for the rest.
pub proof fn lemma_substitution_law(
    pre: Seq<char>,
    k: Seq<char>,
    rest: Seq<char>,
    row: Map<Seq<char>, Seq<char>>,
)
    requires
        forall|i: int| 0 <= i < pre.len() ==> pre[i] != '{',
        forall|i: int| 0 <= i < k.len() ==> !is_stop(k[i]),
    ensures
        row.contains_key(k) ==> subst_spec(pre + brace(k) + rest, row) == pre + row[k]
            + subst_spec(rest, row),
        !row.contains_key(k) ==> subst_spec(pre + brace(k) + rest, row) == pre + brace(k)
            + subst_spec(rest, row),
        unmatched_spec(pre + brace(k) + rest, row) == (if row.contains_key(k) {
            Seq::<Seq<char>>::empty()
        } else {
            seq![k]
        }) + unmatched_spec(rest, row),
    decreases pre.len(),
{
    let t = pre + brace(k) + rest;
    if pre.len() == 0 {
        assert(t[0] == '{');
        let close = 1 + k.len() as int;
        assert(forall|m: int| 1 <= m < close ==> t[m] == k[m - 1] && !is_stop(t[m]));
        assert(t[close] == '}');
        lemma_first_stop_at(t, 1, close);
        assert(t.subrange(1, close) =~= k);
        lemma_subst_shift(t, row, close + 1, close + 1);
        lemma_unmatched_shift(t, row, close + 1, close + 1);
        assert(t.skip(close + 1) =~= rest);
        if row.contains_key(k) {
            assert(subst_spec(t, row) == row[k] + subst_spec(rest, row));
            assert(pre + row[k] + subst_spec(rest, row) =~= row[k] + subst_spec(rest, row));
        } else {
            assert(t.subrange(0, close + 1) =~= brace(k));
            assert(subst_spec(t, row) == brace(k) + subst_spec(rest, row));
            assert(pre + brace(k) + subst_spec(rest, row) =~= brace(k) + subst_spec(rest, row));
            assert(seq![k] + unmatched_spec(rest, row) =~= seq![t.subrange(1, close)]
                + unmatched_spec(rest, row));
        }
    } else {
        assert(t[0] == pre[0]);
        lemma_subst_shift(t, row, 1, 1);
        lemma_unmatched_shift(t, row, 1, 1);
        assert(t.skip(1) =~= pre.skip(1) + brace(k) + rest);
        lemma_substitution_law(pre.skip(1), k, rest, row);
        if row.contains_key(k) {
            assert(seq![pre[0]] + (pre.skip(1) + row[k] + subst_spec(rest, row)) =~= pre + row[k]
                + subst_spec(rest, row));
        } else {
            assert(seq![pre[0]] + (pre.skip(1) + brace(k) + subst_spec(rest, row)) =~= pre
                + brace(k) + subst_spec(rest, row));
        }
    }
}

/// One data row: a mapping from placeholder key to replacement value.
/// A later entry for the same key shadows an earlier one.
pub struct Substitutions {
    pairs: Vec<(String, String)>,
}

spec fn pairs_map(pairs: Seq<(String, String)>) -> Map<Seq<char>, Seq<char>>
    decreases pairs.len(),
{
    if pairs.len() == 0 {
        Map::empty()
    } else {
        pairs_map(pairs.drop_last()).insert(pairs.last().0@, pairs.last().1@)
    }
}

proof fn lemma_pairs_map_unmatched_suffix(pairs: Seq<(String, String)>, i: int, k: Seq<char>)
    requires
        0 <= i <= pairs.len(),
        forall|m: int| i <= m < pairs.len() ==> pairs[m].0@ != k,
    ensures
        pairs_map(pairs).contains_key(k) == pairs_map(pairs.take(i)).contains_key(k),
        pairs_map(pairs).contains_key(k) ==> pairs_map(pairs)[k] == pairs_map(pairs.take(i))[k],
    decreases pairs.len() - i,
{
    if i < pairs.len() {
        let shorter = pairs.drop_last();
        assert(pairs.last().0@ != k);
        lemma_pairs_map_unmatched_suffix(shorter, i, k);
        assert(shorter.take(i) =~= pairs.take(i));
    } else {
        assert(pairs.take(i) =~= pairs);
    }
}

impl View for Substitutions {
    type V = Map<Seq<char>, Seq<char>>;

    closed spec fn view(&self) -> Map<Seq<char>, Seq<char>> {
        pairs_map(self.pairs@)
    }
}

impl Substitutions {
    /// An empty row.
    pub fn new() -> (s: Substitutions)
        ensures
            s@ == Map::<Seq<char>, Seq<char>>::empty(),
    {
        Substitutions { pairs: Vec::new() }
    }

    /// Binds `key` to `value`, shadowing any earlier binding of `key`.
    pub fn insert(&mut self, key: String, value: String)
        ensures
            final(self)@ == old(self)@.insert(key@, value@),
    {
        let ghost oldpairs = self.pairs@;
        self.pairs.push((key, value));
        proof {
            assert(self.pairs@.drop_last() =~= oldpairs);
        }
    }

    /// The value bound to `key`, if the row holds the key.
    pub fn get(&self, key: &str) -> (r: Option<&String>)
        ensures
            match r {
                Some(v) => self@.contains_key(key@) && v@ == self@[key@],
                None => !self@.contains_key(key@),
            },
    {
        let k = String::from_str(key);
        let n = self.pairs.len();
        let mut i: usize = n;
        while i > 0
            invariant
                i <= n,
                n == self.pairs.len(),
                k@ == key@,
                forall|m: int| i <= m < n ==> self.pairs@[m].0@ != key@,
            decreases i,
        {
            if self.pairs[i - 1].0 == k {
                proof {
                    lemma_pairs_map_unmatched_suffix(self.pairs@, i as int, key@);
                    let prefix = self.pairs@.take(i as int);
                    assert(prefix.drop_last() =~= self.pairs@.take(i - 1));
                    assert(prefix.last() == self.pairs@[i - 1]);
                }
                return Some(&self.pairs[i - 1].1);
            }
            i = i - 1;
        }
        proof {
            lemma_pairs_map_unmatched_suffix(self.pairs@, 0, key@);
            assert(self.pairs@.take(0) =~= Seq::<(String, String)>::empty());
        }
        None
    }

    /// Whether the row holds `key`.
    pub fn contains_key(&self, key: &str) -> (r: bool)
        ensures
            r == self@.contains_key(key@),
    {
        self.get(key).is_some()
    }
}

fn is_stop_char(c: char) -> (b: bool)
    ensures
        b == is_stop(c),
{
    c == '{' || c == '}' || c == ' '
}

/// Finds the end of the token that opened at `i`: the index of the first
/// stop character after `i`, or the template's length if there is none.
fn scan_stop(template: &str, i: usize, n: usize) -> (j: usize)
    requires
        n == template@.len(),
        i < n,
    ensures
        i < j <= n,
        j == first_stop(template@, i + 1) || (j == n && first_stop(template@, i + 1) == n),
        j < n ==> is_stop(template@[j as int]),
        forall|m: int| i + 1 <= m < j ==> !is_stop(template@[m]),
{
    let ghost t = template@;
    let mut j: usize = i + 1;
    while j < n && !is_stop_char(template.get_char(j))
        invariant
            t == template@,
            n == t.len(),
            i + 1 <= j <= n,
            forall|m: int| i + 1 <= m < j ==> !is_stop(t[m]),
        decreases n - j,
    {
        j = j + 1;
    }
    proof {
        lemma_first_stop_at(t, i + 1, j as int);
    }
    j
}

/// Replaces every `{key}` token of `template` whose key the row holds with
/// the row's value; all other text, every `{key}` whose key the row does not
/// hold included, stays as it is.
pub fn substitute(template: &str, substitutions: &Substitutions) -> (r: String)
    ensures
        r@ == subst_spec(template@, substitutions@),
{
    let ghost t = template@;
    let ghost row = substitutions@;
    let n = template.unicode_len();
    let mut result = String::new();
    let mut i: usize = 0;
    while i < n
        invariant
            t == template@,
            row == substitutions@,
            n == t.len(),
            i <= n,
            result@ + subst_from(t, row, i as int) == subst_from(t, row, 0),
        decreases n - i,
    {
        let ghost res0 = result@;
        let c = template.get_char(i);
        if c != '{' {
            let piece = template.substring_char(i, i + 1);
            result.append(piece);
            proof {
                assert(piece@ =~= seq![t[i as int]]);
                assert(res0 + (piece@ + subst_from(t, row, i + 1)) =~= (res0 + piece@)
                    + subst_from(t, row, i + 1));
            }
            i = i + 1;
        } else {
            let j = scan_stop(template, i, n);
            if j == n {
                let piece = template.substring_char(i, n);
                result.append(piece);
                proof {
                    assert(res0 + (piece@ + subst_from(t, row, n as int)) =~= (res0 + piece@)
                        + subst_from(t, row, n as int));
                }
                i = n;
            } else {
                let c2 = template.get_char(j);
                if c2 == '}' {
                    let key = template.substring_char(i + 1, j);
                    match substitutions.get(key) {
                        Some(value) => {
                            let piece = value.as_str();
                            result.append(piece);
                            proof {
                                assert(res0 + (piece@ + subst_from(t, row, j + 1)) =~= (res0
                                    + piece@) + subst_from(t, row, j + 1));
                            }
                        },
                        None => {
                            let piece = template.substring_char(i, j + 1);
                            result.append(piece);
                            proof {
                                assert(res0 + (piece@ + subst_from(t, row, j + 1)) =~= (res0
                                    + piece@) + subst_from(t, row, j + 1));
                            }
                        },
                    }
                    i = j + 1;
                } else if c2 == ' ' {
                    let piece = template.substring_char(i, j + 1);
                    result.append(piece);
                    proof {
                        assert(res0 + (piece@ + subst_from(t, row, j + 1)) =~= (res0 + piece@)
                            + subst_from(t, row, j + 1));
                    }
                    i = j + 1;
                } else {
                    let piece = template.substring_char(i, j);
                    result.append(piece);
                    proof {
                        assert(res0 + (piece@ + subst_from(t, row, j as int)) =~= (res0 + piece@)
                            + subst_from(t, row, j as int));
                    }
                    i = j;
                }
            }
        }
    }
    proof {
        assert(result@ + Seq::<char>::empty() =~= result@);
    }
    result
}

/// The keys of the `{key}` tokens of `template` that the row does not hold,
/// one entry per occurrence, in scan order.
pub fn find_unmatched_placeholders(template: &str, substitutions: &Substitutions) -> (r: Vec<
    String,
>)
    ensures
        r.deep_view() == unmatched_spec(template@, substitutions@),
{
    let ghost t = template@;
    let ghost row = substitutions@;
    let n = template.unicode_len();
    let mut keys: Vec<String> = Vec::new();
    let mut i: usize = 0;
    proof {
        assert(keys.deep_view() =~= Seq::<Seq<char>>::empty());
    }
    while i < n
        invariant
            t == template@,
            row == substitutions@,
            n == t.len(),
            i <= n,
            keys.deep_view() + unmatched_from(t, row, i as int) == unmatched_from(t, row, 0),
        decreases n - i,
    {
        let ghost keys0 = keys.deep_view();
        let c = template.get_char(i);
        if c != '{' {
            i = i + 1;
        } else {
            let j = scan_stop(template, i, n);
            if j == n {
                i = n;
            } else {
                let c2 = template.get_char(j);
                if c2 == '}' {
                    let key = template.substring_char(i + 1, j);
                    if !substitutions.contains_key(key) {
                        keys.push(String::from_str(key));
                        proof {
                            assert(keys.deep_view() =~= keys0 + seq![key@]);
                            assert(keys0 + (seq![key@] + unmatched_from(t, row, j + 1)) =~= (keys0
                                + seq![key@]) + unmatched_from(t, row, j + 1));
                        }
                    }
                    i = j + 1;
                } else if c2 == ' ' {
                    i = j + 1;
                } else {
                    i = j;
                }
            }
        }
    }
    proof {
        assert(keys.deep_view() + Seq::<Seq<char>>::empty() =~= keys.deep_view());
    }
    keys
}

/// Scans `content` against the row as `find_unmatched_placeholders` does and
/// returns the keys found wanting; the operator's decision on them is the
/// caller's.
pub fn validate_text(content: &str, substitutions: &Substitutions) -> (r: Vec<String>)
    ensures
        r.deep_view() == unmatched_spec(content@, substitutions@),
{
    find_unmatched_placeholders(content, substitutions)
}

} // verus!
