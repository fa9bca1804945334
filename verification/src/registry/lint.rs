//! Roster hygiene: what is true of a good roster beyond loading cleanly.
//!
//! A roster that is merely untidy still yields a correct table, so nothing
//! here stops a lookup; these rules are what an edit to the roster must meet.
//! The first problem is the one reported, in a fixed order: structure first
//! (by loading), then key order, reachability, routability, and credentials.

use vstd::prelude::*;

use crate::registry::decode::{decode, under};
use crate::registry::load::{
    load_file, load_roster, roster_of, ticked, ticked_exec, ModelEntryView, ProviderEntry,
    ProviderEntryView, RosterFile, RosterView,
};
use crate::text::{before, before_exec, chars_of, decimal, decimal_of, join2, owned, skip_space, string_of, trim_start, lemma_leading_space};
use crate::types::{protocol_apis, protocol_name, Api};
use crate::yaml::{parse_yaml, yaml_document};

verus! {

// ------------------------------------------------------------------- lines

/// The index of the first newline in `t`, or its length when it has none.
pub open spec fn line_end(t: Seq<char>) -> nat
    decreases t.len(),
{
    if t.len() == 0 || t[0] == '\n' {
        0
    } else {
        1 + line_end(t.drop_first())
    }
}

/// The lines of `t`, as `str::lines` yields them: split at each newline, with
/// no empty line after a final one. A carriage return before a newline is
/// kept; it never decides whether a line holds a key followed by `:`.
pub open spec fn text_lines(t: Seq<char>) -> Seq<Seq<char>>
    decreases t.len(),
{
    if t.len() == 0 {
        Seq::empty()
    } else {
        let k = line_end(t);
        if k < t.len() {
            seq![t.take(k as int)] + text_lines(t.skip(k as int + 1))
        } else {
            seq![t]
        }
    }
}

proof fn lemma_line_end(t: Seq<char>, k: nat)
    requires
        k <= t.len(),
        forall|j: int| 0 <= j < k ==> t[j] != '\n',
        k == t.len() || t[k as int] == '\n',
    ensures
        line_end(t) == k,
    decreases t.len(),
{
    if t.len() > 0 && t[0] != '\n' {
        assert forall|j: int| 0 <= j < k - 1 implies t.drop_first()[j] != '\n' by {
            assert(t.drop_first()[j] == t[j + 1]);
        }
        lemma_line_end(t.drop_first(), (k - 1) as nat);
    }
}

/// `t` split into its lines.
pub fn lines_of(t: &[char]) -> (r: Vec<Vec<char>>)
    ensures
        r@.map_values(|l: Vec<char>| l@) == text_lines(t@),
{
    let mut r: Vec<Vec<char>> = Vec::new();
    let mut start: usize = 0;
    assert(t@.skip(0) =~= t@);
    while start < t.len()
        invariant
            start <= t.len(),
            text_lines(t@) == r@.map_values(|l: Vec<char>| l@) + text_lines(t@.skip(start as int)),
        decreases t.len() - start,
    {
        let ghost s = t@.skip(start as int);
        let mut line: Vec<char> = Vec::new();
        let mut j: usize = start;
        while j < t.len() && t[j] != '\n'
            invariant
                start <= j <= t.len(),
                s == t@.skip(start as int),
                line@ == t@.subrange(start as int, j as int),
                forall|m: int| start <= m < j ==> t@[m] != '\n',
            decreases t.len() - j,
        {
            line.push(t[j]);
            j = j + 1;
            assert(line@ =~= t@.subrange(start as int, j as int));
        }
        let k: usize = j - start;
        proof {
            assert forall|m: int| 0 <= m < k implies s[m] != '\n' by {
                assert(s[m] == t@[start + m]);
            }
            if j < t.len() {
                assert(s[k as int] == t@[j as int]);
            }
            lemma_line_end(s, k as nat);
            assert(line@ =~= s.take(k as int));
        }
        let ghost before = r@.map_values(|l: Vec<char>| l@);
        r.push(line);
        assert(r@.map_values(|l: Vec<char>| l@) =~= before.push(line@));
        if j < t.len() {
            assert(s.skip(k as int + 1) =~= t@.skip(j as int + 1));
            start = j + 1;
            assert(text_lines(t@) =~= r@.map_values(|l: Vec<char>| l@) + text_lines(t@.skip(start as int)));
        } else {
            assert(s =~= s.take(k as int));
            start = t.len();
            assert(t@.skip(start as int) =~= Seq::<char>::empty());
            assert(text_lines(t@) =~= r@.map_values(|l: Vec<char>| l@) + text_lines(t@.skip(start as int)));
        }
    }
    assert(t@.skip(start as int) =~= Seq::<char>::empty());
    assert(r@.map_values(|l: Vec<char>| l@) + Seq::<Seq<char>>::empty() =~= r@.map_values(|l: Vec<char>| l@));
    r
}

/// `k` in double quotes, as a YAML author may have written it.
pub open spec fn quoted(k: Seq<char>) -> Seq<char> {
    seq!['"'] + k + seq!['"']
}

/// Whether `l` starts with `k` followed directly by `:`.
pub open spec fn keyed(l: Seq<char>, k: Seq<char>) -> bool {
    &&& l.len() > k.len()
    &&& l.take(k.len() as int) == k
    &&& l[k.len() as int] == ':'
}

/// Whether `line` is where `key` is written: after its indentation, the key,
/// bare or quoted, then `:` at once, which keeps a search for one key off
/// the line of a longer key that starts with it.
pub open spec fn line_holds(line: Seq<char>, key: Seq<char>) -> bool {
    keyed(trim_start(line), key) || keyed(trim_start(line), quoted(key))
}

/// The first line, from `i`, that holds `key`.
pub open spec fn first_line(lines: Seq<Seq<char>>, key: Seq<char>, i: int) -> Option<int>
    decreases lines.len() - i,
{
    if i < 0 || i >= lines.len() {
        None
    } else if line_holds(lines[i], key) {
        Some(i)
    } else {
        first_line(lines, key, i + 1)
    }
}

/// ` (line N)` for the line `key` is written on, or nothing when no line
/// shows it plainly.
pub open spec fn line_note(t: Seq<char>, key: Seq<char>) -> Seq<char> {
    match first_line(text_lines(t), key, 0) {
        Some(i) => " (line "@ + decimal((i + 1) as nat) + ")"@,
        None => Seq::empty(),
    }
}

fn keyed_exec(l: &[char], from: usize, k: &[char]) -> (r: bool)
    requires
        from <= l.len(),
    ensures
        r == keyed(l@.skip(from as int), k@),
{
    let ghost s = l@.skip(from as int);
    if l.len() - from <= k.len() {
        return false;
    }
    let mut i: usize = 0;
    while i < k.len()
        invariant
            i <= k.len(),
            k.len() < l.len() - from,
            s == l@.skip(from as int),
            forall|m: int| 0 <= m < i ==> s[m] == k@[m],
        decreases k.len() - i,
    {
        if l[from + i] != k[i] {
            assert(s.take(k.len() as int)[i as int] != k@[i as int]);
            return false;
        }
        i = i + 1;
    }
    assert(s.take(k.len() as int) =~= k@);
    l[from + k.len()] == ':'
}

fn quoted_exec(k: &[char]) -> (r: Vec<char>)
    ensures
        r@ == quoted(k@),
{
    let mut r: Vec<char> = Vec::new();
    r.push('"');
    let mut i: usize = 0;
    while i < k.len()
        invariant
            i <= k.len(),
            r@ == seq!['"'] + k@.take(i as int),
        decreases k.len() - i,
    {
        r.push(k[i]);
        i = i + 1;
        assert(r@ =~= seq!['"'] + k@.take(i as int));
    }
    r.push('"');
    assert(r@ =~= quoted(k@));
    r
}

/// ` (line N)` for the line `key` is written on, given the text's lines.
pub fn line_note_exec(lines: &Vec<Vec<char>>, key: &[char]) -> (r: String)
    ensures
        r@ == match first_line(lines@.map_values(|l: Vec<char>| l@), key@, 0) {
            Some(i) => " (line "@ + decimal((i + 1) as nat) + ")"@,
            None => Seq::<char>::empty(),
        },
{
    let ghost ls = lines@.map_values(|l: Vec<char>| l@);
    let q = quoted_exec(key);
    let mut i: usize = 0;
    while i < lines.len()
        invariant
            i <= lines.len(),
            ls == lines@.map_values(|l: Vec<char>| l@),
            q@ == quoted(key@),
            first_line(ls, key@, 0) == first_line(ls, key@, i as int),
        decreases lines.len() - i,
    {
        let line = &lines[i];
        assert(ls[i as int] == line@);
        let from = skip_space(line.as_slice());
        proof {
            lemma_leading_space(line@);
        }
        assert(line@.skip(from as int) == trim_start(line@));
        if keyed_exec(line.as_slice(), from, key) || keyed_exec(line.as_slice(), from, q.as_slice()) {
            let n = decimal_of((i as u64) + 1);
            let mut r = join2(" (line ", n.as_str());
            r.append(")");
            return r;
        }
        i = i + 1;
    }
    String::new()
}

// ------------------------------------------------------------------- order

/// The first pair of neighbouring keys, from `i`, that is out of order:
/// `(above, below)` where `below` sorts before `above`.
pub open spec fn misordered(keys: Seq<Seq<char>>, i: int) -> Option<(Seq<char>, Seq<char>)>
    decreases keys.len() - i,
{
    if i < 0 || i + 1 >= keys.len() {
        None
    } else if before(keys[i + 1], keys[i]) {
        Some((keys[i], keys[i + 1]))
    } else {
        misordered(keys, i + 1)
    }
}

/// The provider names, in document order.
pub open spec fn provider_keys(f: RosterView) -> Seq<Seq<char>> {
    f.providers.map_values(|e: (Seq<char>, ProviderEntryView)| e.0)
}

/// One provider's model keys, in document order.
pub open spec fn model_keys(e: ProviderEntryView) -> Seq<Seq<char>> {
    e.models.map_values(|m: (Seq<char>, ModelEntryView)| m.0)
}

/// The path a provider's models sit at.
pub open spec fn models_path(provider: Seq<char>) -> Seq<char> {
    under(under("providers"@, provider), "models"@)
}

/// What a misplaced key is told: which key to move, where to, and the
/// ordering it is judged against.
pub open spec fn order_text(t: Seq<char>, level: Seq<char>, above: Seq<char>, below: Seq<char>) -> Seq<char> {
    level + ": "@ + ticked(below) + line_note(t, below) + " is out of order — move it above "@
        + ticked(above) + line_note(t, above) + order_reason()
}

pub open spec fn order_reason() -> Seq<char> {
    ".\nEntries are kept in ascending BYTE order, which is what `LC_ALL=C sort` gives and may differ from your editor's sort. That ordering gives every new entry exactly one place to go, so two changes adding different entries do not collide."@
}

/// The first provider, from `i`, whose models are out of order.
pub open spec fn models_misordered(t: Seq<char>, f: RosterView, i: int) -> Option<Seq<char>>
    decreases f.providers.len() - i,
{
    if i < 0 || i >= f.providers.len() {
        None
    } else {
        match misordered(model_keys(f.providers[i].1), 0) {
            Some((above, below)) => Some(order_text(t, models_path(f.providers[i].0), above, below)),
            None => models_misordered(t, f, i + 1),
        }
    }
}

/// The first provider, from `i`, that no model routes through.
pub open spec fn unreachable(f: RosterView, i: int) -> Option<Seq<char>>
    decreases f.providers.len() - i,
{
    if i < 0 || i >= f.providers.len() {
        None
    } else if f.providers[i].1.models.len() == 0 {
        Some(ticked(f.providers[i].0)
            + ": nothing routes through this namespace. Give it a model entry, or delete it."@)
    } else {
        unreachable(f, i + 1)
    }
}

/// The first surface, from `i`, that the protocol does not define.
pub open spec fn foreign_api(apis: Seq<Api>, defined: Seq<Api>, i: int) -> Option<Api>
    decreases apis.len() - i,
{
    if i < 0 || i >= apis.len() {
        None
    } else if !defined.contains(apis[i]) {
        Some(apis[i])
    } else {
        foreign_api(apis, defined, i + 1)
    }
}

/// What keeps a provider that loads cleanly from serving a request.
pub open spec fn provider_problem(e: ProviderEntryView) -> Option<Seq<char>> {
    if e.base_url.len() == 0 {
        Some("base_url is empty"@)
    } else if e.base_url.last() == '/' {
        Some("base_url "@ + ticked(e.base_url)
            + " ends with `/`; endpoints append their own path, which would produce a doubled slash"@)
    } else if e.env_api_key == Some(Seq::<char>::empty()) {
        Some("env_api_key is empty; omit the field entirely if this provider takes its key from the caller"@)
    } else if e.supported_apis.len() == 0 {
        Some("supported_apis names no API, so nothing could ever route here"@)
    } else {
        match foreign_api(e.supported_apis, protocol_apis(e.protocol), 0) {
            Some(a) => Some(ticked(crate::types::api_name(a)) + " is not an API of the "@
                + ticked(protocol_name(e.protocol)) + " protocol"@),
            None => None,
        }
    }
}

/// The first provider, from `i`, that could not serve a request.
pub open spec fn unroutable(f: RosterView, i: int) -> Option<Seq<char>>
    decreases f.providers.len() - i,
{
    if i < 0 || i >= f.providers.len() {
        None
    } else {
        match provider_problem(f.providers[i].1) {
            Some(m) => Some(ticked(f.providers[i].0) + ": "@ + m),
            None => unroutable(f, i + 1),
        }
    }
}

/// The first provider in `j..n` that reads its key from `var`.
pub open spec fn first_claim(f: RosterView, var: Seq<char>, j: int, n: int) -> Option<int>
    decreases n - j,
{
    if j < 0 || j >= n || j >= f.providers.len() {
        None
    } else if f.providers[j].1.env_api_key == Some(var) {
        Some(j)
    } else {
        first_claim(f, var, j + 1, n)
    }
}

pub open spec fn clash_text(var: Seq<char>, other: Seq<char>, provider: Seq<char>) -> Seq<char> {
    ticked(var) + " is claimed by both "@ + ticked(other) + " and "@ + ticked(provider)
        + "; every provider needs its own environment variable"@
}

/// The first provider, from `i`, reading its key from a variable an earlier
/// provider already reads.
pub open spec fn env_clash(f: RosterView, i: int) -> Option<Seq<char>>
    decreases f.providers.len() - i,
{
    if i < 0 || i >= f.providers.len() {
        None
    } else {
        match f.providers[i].1.env_api_key {
            None => env_clash(f, i + 1),
            Some(var) => match first_claim(f, var, 0, i) {
                Some(j) => Some(clash_text(var, f.providers[j].0, f.providers[i].0)),
                None => env_clash(f, i + 1),
            },
        }
    }
}

/// Every hygiene rule over a roster that loads, first failure reported.
pub open spec fn lint_roster(t: Seq<char>, f: RosterView) -> Result<(), Seq<char>> {
    if f.providers.len() == 0 {
        Err("providers: the registry names no models"@)
    } else if let Some((above, below)) = misordered(provider_keys(f), 0) {
        Err(order_text(t, "providers"@, above, below))
    } else if let Some(e) = models_misordered(t, f, 0) {
        Err(e)
    } else if let Some(e) = unreachable(f, 0) {
        Err(e)
    } else if let Some(e) = unroutable(f, 0) {
        Err(e)
    } else if let Some(e) = env_clash(f, 0) {
        Err(e)
    } else {
        Ok(())
    }
}

/// What [`check`] answers for a roster document: the load failure if it
/// does not load, else the first hygiene rule it breaks.
pub open spec fn check_text(t: Seq<char>) -> Result<(), Seq<char>> {
    match roster_of(yaml_document(t)) {
        Err(e) => Err(e),
        Ok(f) => match load_roster(f) {
            Err(e) => Err(e),
            Ok(_) => lint_roster(t, f),
        },
    }
}

fn misordered_exec(keys: &Vec<Vec<char>>) -> (r: Option<usize>)
    ensures
        match misordered(keys@.map_values(|k: Vec<char>| k@), 0) {
            None => r is None,
            Some((a, b)) => r matches Some(i) && i + 1 < keys.len() && keys@[i as int]@ == a
                && keys@[i + 1]@ == b,
        },
{
    let ghost ks = keys@.map_values(|k: Vec<char>| k@);
    let mut i: usize = 0;
    while i < keys.len() && i + 1 < keys.len()
        invariant
            ks == keys@.map_values(|k: Vec<char>| k@),
            misordered(ks, 0) == misordered(ks, i as int),
        decreases keys.len() - i,
    {
        if before_exec(keys[i + 1].as_slice(), keys[i].as_slice()) {
            return Some(i);
        }
        i = i + 1;
    }
    None
}

fn provider_key_chars(f: &RosterFile) -> (r: Vec<Vec<char>>)
    ensures
        r@.map_values(|k: Vec<char>| k@) == provider_keys(f@),
{
    let mut r: Vec<Vec<char>> = Vec::new();
    let mut i: usize = 0;
    while i < f.providers.len()
        invariant
            i <= f.providers.len(),
            r@.map_values(|k: Vec<char>| k@) == provider_keys(f@).take(i as int),
        decreases f.providers.len() - i,
    {
        let ghost before = r@.map_values(|k: Vec<char>| k@);
        let key = chars_of(f.providers[i].0.as_str());
        assert(provider_keys(f@)[i as int] == key@);
        r.push(key);
        assert(r@.map_values(|k: Vec<char>| k@) =~= before.push(key@));
        assert(provider_keys(f@).take(i as int + 1) =~= provider_keys(f@).take(i as int).push(key@));
        i = i + 1;
    }
    assert(provider_keys(f@).take(i as int) =~= provider_keys(f@));
    r
}

fn model_key_chars(e: &ProviderEntry) -> (r: Vec<Vec<char>>)
    ensures
        r@.map_values(|k: Vec<char>| k@) == model_keys(e@),
{
    let mut r: Vec<Vec<char>> = Vec::new();
    match &e.models {
        None => {
            assert(r@.map_values(|k: Vec<char>| k@) =~= model_keys(e@));
        },
        Some(ms) => {
            let mut i: usize = 0;
            while i < ms.len()
                invariant
                    i <= ms.len(),
                    e.models == Some(*ms),
                    r@.map_values(|k: Vec<char>| k@) == model_keys(e@).take(i as int),
                decreases ms.len() - i,
            {
                let ghost before = r@.map_values(|k: Vec<char>| k@);
                let key = chars_of(ms[i].0.as_str());
                assert(model_keys(e@)[i as int] == key@);
                r.push(key);
                assert(r@.map_values(|k: Vec<char>| k@) =~= before.push(key@));
                assert(model_keys(e@).take(i as int + 1) =~= model_keys(e@).take(i as int).push(key@));
                i = i + 1;
            }
            assert(model_keys(e@).take(i as int) =~= model_keys(e@));
        },
    }
    r
}

fn order_text_exec(
    lines: &Vec<Vec<char>>,
    Ghost(t): Ghost<Seq<char>>,
    level: &str,
    above: &[char],
    below: &[char],
) -> (r: String)
    requires
        lines@.map_values(|l: Vec<char>| l@) == text_lines(t),
    ensures
        r@ == order_text(t, level@, above@, below@),
{
    let mut r = join2(level, ": ");
    let b = string_of(below);
    let a = string_of(above);
    r.append(ticked_exec(b.as_str()).as_str());
    r.append(line_note_exec(lines, below).as_str());
    r.append(" is out of order — move it above ");
    r.append(ticked_exec(a.as_str()).as_str());
    r.append(line_note_exec(lines, above).as_str());
    r.append(".\nEntries are kept in ascending BYTE order, which is what `LC_ALL=C sort` gives and may differ from your editor's sort. That ordering gives every new entry exactly one place to go, so two changes adding different entries do not collide.");
    r
}

fn models_misordered_exec(lines: &Vec<Vec<char>>, Ghost(t): Ghost<Seq<char>>, f: &RosterFile) -> (r: Option<String>)
    requires
        lines@.map_values(|l: Vec<char>| l@) == text_lines(t),
    ensures
        match models_misordered(t, f@, 0) {
            None => r is None,
            Some(e) => r matches Some(m) && m@ == e,
        },
{
    let mut i: usize = 0;
    while i < f.providers.len()
        invariant
            i <= f.providers.len(),
            lines@.map_values(|l: Vec<char>| l@) == text_lines(t),
            models_misordered(t, f@, 0) == models_misordered(t, f@, i as int),
        decreases f.providers.len() - i,
    {
        let keys = model_key_chars(&f.providers[i].1);
        match misordered_exec(&keys) {
            Some(j) => {
                let mut path = owned("providers");
                path.append(".");
                path.append(f.providers[i].0.as_str());
                path.append(".");
                path.append("models");
                return Some(order_text_exec(lines, Ghost(t), path.as_str(), keys[j].as_slice(), keys[j + 1].as_slice()));
            },
            None => {},
        }
        i = i + 1;
    }
    None
}

fn model_count(e: &ProviderEntry) -> (r: usize)
    ensures
        r == e@.models.len(),
{
    match &e.models {
        None => 0,
        Some(ms) => ms.len(),
    }
}

fn unreachable_exec(f: &RosterFile) -> (r: Option<String>)
    ensures
        match unreachable(f@, 0) {
            None => r is None,
            Some(e) => r matches Some(m) && m@ == e,
        },
{
    let mut i: usize = 0;
    while i < f.providers.len()
        invariant
            i <= f.providers.len(),
            unreachable(f@, 0) == unreachable(f@, i as int),
        decreases f.providers.len() - i,
    {
        if model_count(&f.providers[i].1) == 0 {
            let mut m = ticked_exec(f.providers[i].0.as_str());
            m.append(": nothing routes through this namespace. Give it a model entry, or delete it.");
            return Some(m);
        }
        i = i + 1;
    }
    None
}

fn foreign_api_exec(apis: &Vec<Api>, defined: &Vec<Api>) -> (r: Option<Api>)
    ensures
        r == foreign_api(apis@, defined@, 0),
{
    let mut i: usize = 0;
    while i < apis.len()
        invariant
            i <= apis.len(),
            foreign_api(apis@, defined@, 0) == foreign_api(apis@, defined@, i as int),
        decreases apis.len() - i,
    {
        let mut found = false;
        let mut j: usize = 0;
        while j < defined.len()
            invariant
                j <= defined.len(),
                i < apis.len(),
                found == (exists|k: int| 0 <= k < j && defined@[k] == apis@[i as int]),
            decreases defined.len() - j,
        {
            if defined[j] == apis[i] {
                found = true;
            }
            j = j + 1;
        }
        if !found {
            return Some(apis[i]);
        }
        i = i + 1;
    }
    None
}

fn provider_problem_exec(e: &ProviderEntry) -> (r: Option<String>)
    ensures
        match provider_problem(e@) {
            None => r is None,
            Some(m) => r matches Some(x) && x@ == m,
        },
{
    let url = chars_of(e.base_url.as_str());
    if url.len() == 0 {
        return Some(owned("base_url is empty"));
    }
    if url[url.len() - 1] == '/' {
        let mut m = join2("base_url ", ticked_exec(e.base_url.as_str()).as_str());
        m.append(" ends with `/`; endpoints append their own path, which would produce a doubled slash");
        return Some(m);
    }
    match &e.env_api_key {
        Some(var) => {
            if chars_of(var.as_str()).len() == 0 {
                proof {
                    assert(var@ =~= Seq::<char>::empty());
                }
                return Some(owned("env_api_key is empty; omit the field entirely if this provider takes its key from the caller"));
            }
        },
        None => {},
    }
    if e.supported_apis.len() == 0 {
        return Some(owned("supported_apis names no API, so nothing could ever route here"));
    }
    let defined = e.protocol.apis();
    match foreign_api_exec(&e.supported_apis, &defined) {
        Some(a) => {
            let mut m = join2(ticked_exec(a.as_str()).as_str(), " is not an API of the ");
            m.append(ticked_exec(e.protocol.as_str()).as_str());
            m.append(" protocol");
            Some(m)
        },
        None => None,
    }
}

fn unroutable_exec(f: &RosterFile) -> (r: Option<String>)
    ensures
        match unroutable(f@, 0) {
            None => r is None,
            Some(e) => r matches Some(m) && m@ == e,
        },
{
    let mut i: usize = 0;
    while i < f.providers.len()
        invariant
            i <= f.providers.len(),
            unroutable(f@, 0) == unroutable(f@, i as int),
        decreases f.providers.len() - i,
    {
        match provider_problem_exec(&f.providers[i].1) {
            Some(p) => {
                let mut m = ticked_exec(f.providers[i].0.as_str());
                m.append(": ");
                m.append(p.as_str());
                return Some(m);
            },
            None => {},
        }
        i = i + 1;
    }
    None
}

proof fn lemma_first_claim(f: RosterView, var: Seq<char>, j: int, n: int)
    ensures
        first_claim(f, var, j, n) matches Some(k) ==> {
            &&& j <= k < n
            &&& k < f.providers.len()
            &&& f.providers[k].1.env_api_key == Some(var)
        },
    decreases n - j,
{
    if 0 <= j < n && j < f.providers.len() && f.providers[j].1.env_api_key != Some(var) {
        lemma_first_claim(f, var, j + 1, n);
    }
}

fn first_claim_exec(f: &RosterFile, var: &str, n: usize) -> (r: Option<usize>)
    requires
        n <= f.providers.len(),
    ensures
        match first_claim(f@, var@, 0, n as int) {
            None => r is None,
            Some(j) => r == Some(j as usize),
        },
{
    let mut j: usize = 0;
    while j < n
        invariant
            j <= n <= f.providers.len(),
            first_claim(f@, var@, 0, n as int) == first_claim(f@, var@, j as int, n as int),
        decreases n - j,
    {
        match &f.providers[j].1.env_api_key {
            Some(v) => {
                if crate::text::text_eq(v.as_str(), var) {
                    return Some(j);
                }
            },
            None => {},
        }
        j = j + 1;
    }
    None
}

fn env_clash_exec(f: &RosterFile) -> (r: Option<String>)
    ensures
        match env_clash(f@, 0) {
            None => r is None,
            Some(e) => r matches Some(m) && m@ == e,
        },
{
    let mut i: usize = 0;
    while i < f.providers.len()
        invariant
            i <= f.providers.len(),
            env_clash(f@, 0) == env_clash(f@, i as int),
        decreases f.providers.len() - i,
    {
        match &f.providers[i].1.env_api_key {
            Some(var) => {
                proof {
                    lemma_first_claim(f@, var@, 0, i as int);
                }
                match first_claim_exec(f, var.as_str(), i) {
                    Some(j) => {
                        let mut m = ticked_exec(var.as_str());
                        m.append(" is claimed by both ");
                        m.append(ticked_exec(f.providers[j].0.as_str()).as_str());
                        m.append(" and ");
                        m.append(ticked_exec(f.providers[i].0.as_str()).as_str());
                        m.append("; every provider needs its own environment variable");
                        return Some(m);
                    },
                    None => {},
                }
            },
            None => {},
        }
        i = i + 1;
    }
    None
}

/// Every hygiene rule over a roster that loads, given its text for line
/// numbers.
pub fn lint_file(yaml: &str, f: &RosterFile) -> (r: Result<(), String>)
    ensures
        match lint_roster(yaml@, f@) {
            Ok(()) => r is Ok,
            Err(e) => r matches Err(m) && m@ == e,
        },
{
    if f.providers.len() == 0 {
        return Err(owned("providers: the registry names no models"));
    }
    let text = chars_of(yaml);
    let lines = lines_of(text.as_slice());
    let keys = provider_key_chars(f);
    match misordered_exec(&keys) {
        Some(i) => {
            return Err(order_text_exec(&lines, Ghost(yaml@), "providers", keys[i].as_slice(), keys[i + 1].as_slice()));
        },
        None => {},
    }
    match models_misordered_exec(&lines, Ghost(yaml@), f) {
        Some(e) => {
            return Err(e);
        },
        None => {},
    }
    match unreachable_exec(f) {
        Some(e) => {
            return Err(e);
        },
        None => {},
    }
    match unroutable_exec(f) {
        Some(e) => {
            return Err(e);
        },
        None => {},
    }
    match env_clash_exec(f) {
        Some(e) => Err(e),
        None => Ok(()),
    }
}

/// Holds a roster document to every policy: it must load, and then be tidy.
/// The first failure is reported, and a structural one is reported as itself
/// rather than as a hygiene complaint it also trips.
pub fn check(yaml: &str) -> (r: Result<(), String>)
    ensures
        match check_text(yaml@) {
            Ok(()) => r is Ok,
            Err(e) => r matches Err(m) && m@ == e,
        },
{
    let node = match parse_yaml(yaml) {
        Err(e) => {
            return Err(e);
        },
        Ok(n) => n,
    };
    let file = match decode(&node) {
        Err(e) => {
            return Err(e);
        },
        Ok(f) => f,
    };
    match load_file(&file) {
        Err(e) => Err(e),
        Ok(_) => lint_file(yaml, &file),
    }
}

/// A roster that passes [`check`] loads, and one that does not load fails
/// `check` with the load failure itself rather than a hygiene complaint.
pub proof fn law_check_reports_load_failures_as_themselves(t: Seq<char>)
    ensures
        crate::registry::load::load_text(t) matches Err(e) ==> check_text(t) == Err::<(), Seq<char>>(e),
        check_text(t) is Ok ==> crate::registry::load::load_text(t) is Ok,
{
}

} // verus!
