//! Configuration entries: splitting, port parsing and path normalisation.

use vstd::prelude::*;

verus! {

/// The root path, which normalisation keeps as it is.
pub open spec fn is_root(p: Seq<char>) -> bool {
    p == seq!['/']
}

/// A path with exactly one trailing `/` removed, unless it is the root path.
pub open spec fn normalized(p: Seq<char>) -> Seq<char> {
    if is_root(p) {
        p
    } else if p.len() > 0 && p.last() == '/' {
        p.drop_last()
    } else {
        p
    }
}

/// Normalises a configured path: `/` stays `/`, any other path loses one
/// trailing `/` if it has one.
pub fn normalize_path(path: String) -> (r: String)
    ensures
        r@ == normalized(path@),
{
    let n = path.as_str().unicode_len();
    if n == 1 && path.as_str().get_char(0) == '/' {
        assert(path@ =~= seq!['/']);
        return path;
    }
    if n > 0 && path.as_str().get_char(n - 1) == '/' {
        let kept = path.as_str().substring_char(0, n - 1);
        assert(kept@ =~= path@.drop_last());
        kept.to_owned()
    } else {
        path
    }
}


/// The views of a sequence of strings.
pub open spec fn views(v: Seq<String>) -> Seq<Seq<char>> {
    v.map_values(|x: String| x@)
}

/// The fields of `s` between commas, from left to right; a text without a
/// comma is one field, and the empty text is one empty field.
pub open spec fn comma_fields(s: Seq<char>) -> Seq<Seq<char>>
    decreases s.len(),
{
    if s.len() == 0 {
        seq![Seq::empty()]
    } else {
        let prev = comma_fields(s.drop_last());
        if s.last() == ',' {
            prev.push(Seq::empty())
        } else {
            prev.update(prev.len() - 1, prev.last().push(s.last()))
        }
    }
}

/// A text always has at least one field.
pub proof fn lemma_comma_fields_nonempty(s: Seq<char>)
    ensures
        comma_fields(s).len() >= 1,
    decreases s.len(),
{
    if s.len() > 0 {
        lemma_comma_fields_nonempty(s.drop_last());
    }
}

/// What `str::trim` returns for a text.
pub uninterp spec fn trimmed(s: Seq<char>) -> Seq<char>;

/// The non-empty texts of `xs`, in order.
pub open spec fn nonempty_only(xs: Seq<Seq<char>>) -> Seq<Seq<char>>
    decreases xs.len(),
{
    if xs.len() == 0 {
        Seq::empty()
    } else {
        let rest = nonempty_only(xs.drop_last());
        if xs.last().len() > 0 {
            rest.push(xs.last())
        } else {
            rest
        }
    }
}

/// The entries of one configured value: its comma-separated fields, trimmed,
/// with the empty ones left out.
pub open spec fn entries_of(s: Seq<char>) -> Seq<Seq<char>> {
    nonempty_only(comma_fields(s).map_values(|f: Seq<char>| trimmed(f)))
}

/// The entries of several configured values, one value after the other.
pub open spec fn entries_of_all(vs: Seq<Seq<char>>) -> Seq<Seq<char>>
    decreases vs.len(),
{
    if vs.len() == 0 {
        Seq::empty()
    } else {
        entries_of_all(vs.drop_last()) + entries_of(vs.last())
    }
}

/// Relies on `str::trim`: the text without its leading and trailing white
/// space, which depends on the characters alone.
#[verifier::external_body]
fn trim_text(s: &str) -> (r: &str)
    ensures
        r@ == trimmed(s@),
{
    s.trim()
}

/// Splits `s` at each comma.
pub fn split_commas(s: &str) -> (r: Vec<String>)
    ensures
        views(r@) == comma_fields(s@),
{
    let n = s.unicode_len();
    let mut fields: Vec<String> = Vec::new();
    let mut start: usize = 0;
    let mut i: usize = 0;
    assert(views(fields@) =~= Seq::empty());
    assert(s@.subrange(0, 0) =~= Seq::<char>::empty());
    while i < n
        invariant
            n == s@.len(),
            start <= i <= n,
            views(fields@).push(s@.subrange(start as int, i as int)) == comma_fields(
                s@.subrange(0, i as int),
            ),
        decreases n - i,
    {
        let c = s.get_char(i);
        let ghost before = views(fields@);
        proof {
            assert(s@.subrange(0, i + 1).drop_last() =~= s@.subrange(0, i as int));
            assert(s@.subrange(0, i + 1).last() == c);
            lemma_comma_fields_nonempty(s@.subrange(0, i as int));
        }
        if c == ',' {
            let field = s.substring_char(start, i).to_owned();
            fields.push(field);
            assert(views(fields@) =~= before.push(s@.subrange(start as int, i as int)));
            assert(s@.subrange(i + 1, i + 1) =~= Seq::<char>::empty());
            start = i + 1;
        } else {
            assert(s@.subrange(start as int, i as int).push(c) =~= s@.subrange(
                start as int,
                i + 1,
            ));
            assert(before.push(s@.subrange(start as int, i + 1)) =~= comma_fields(
                s@.subrange(0, i + 1),
            ));
        }
        i = i + 1;
    }
    let last = s.substring_char(start, n).to_owned();
    let ghost before = views(fields@);
    fields.push(last);
    assert(views(fields@) =~= before.push(s@.subrange(start as int, n as int)));
    assert(s@.subrange(0, n as int) =~= s@);
    assert(views(fields@) =~= comma_fields(s@));
    fields
}

/// The texts of `texts` that are not empty, in order.
pub fn drop_empty(texts: Vec<String>) -> (r: Vec<String>)
    ensures
        views(r@) == nonempty_only(views(texts@)),
{
    let mut out: Vec<String> = Vec::new();
    let mut j: usize = 0;
    while j < texts.len()
        invariant
            j <= texts@.len(),
            views(out@) == nonempty_only(views(texts@).subrange(0, j as int)),
        decreases texts@.len() - j,
    {
        proof {
            assert(views(texts@).subrange(0, j + 1).drop_last() =~= views(texts@).subrange(
                0,
                j as int,
            ));
        }
        if texts[j].as_str().unicode_len() > 0 {
            let ghost before = views(out@);
            out.push(texts[j].clone());
            assert(views(out@) =~= before.push(views(texts@)[j as int]));
        }
        j = j + 1;
    }
    assert(views(texts@).subrange(0, j as int) =~= views(texts@));
    out
}

/// The entries of one configured value: split at commas, each field trimmed,
/// empty fields dropped.
pub fn split_entries(value: &str) -> (r: Vec<String>)
    ensures
        views(r@) == entries_of(value@),
{
    let fields = split_commas(value);
    let ghost trims = comma_fields(value@).map_values(|f: Seq<char>| trimmed(f));
    let mut trimmed_fields: Vec<String> = Vec::new();
    let mut j: usize = 0;
    while j < fields.len()
        invariant
            j <= fields@.len(),
            views(fields@) == comma_fields(value@),
            trims == comma_fields(value@).map_values(|f: Seq<char>| trimmed(f)),
            views(trimmed_fields@) == trims.subrange(0, j as int),
        decreases fields@.len() - j,
    {
        let t = trim_text(fields[j].as_str());
        let ghost before = views(trimmed_fields@);
        trimmed_fields.push(t.to_owned());
        assert(trims[j as int] == trimmed(views(fields@)[j as int]));
        assert(views(trimmed_fields@) =~= before.push(t@));
        assert(views(trimmed_fields@) =~= trims.subrange(0, j + 1));
        j = j + 1;
    }
    assert(trims.subrange(0, j as int) =~= trims);
    drop_empty(trimmed_fields)
}

/// The entries of several configured values, one value after the other.
pub fn collect_entries(values: &Vec<String>) -> (r: Vec<String>)
    ensures
        views(r@) == entries_of_all(views(values@)),
{
    let mut out: Vec<String> = Vec::new();
    let mut k: usize = 0;
    while k < values.len()
        invariant
            k <= values@.len(),
            views(out@) == entries_of_all(views(values@).subrange(0, k as int)),
        decreases values@.len() - k,
    {
        let mut part = split_entries(values[k].as_str());
        proof {
            assert(views(values@).subrange(0, k + 1).drop_last() =~= views(values@).subrange(
                0,
                k as int,
            ));
        }
        let ghost before = views(out@);
        let ghost added = views(part@);
        out.append(&mut part);
        assert(views(out@) =~= before + added);
        k = k + 1;
    }
    assert(views(values@).subrange(0, k as int) =~= views(values@));
    out
}


/// A decimal digit.
pub open spec fn is_digit(c: char) -> bool {
    '0' <= c <= '9'
}

/// The value of a sequence of decimal digits.
pub open spec fn digits_value(d: Seq<char>) -> nat
    decreases d.len(),
{
    if d.len() == 0 {
        0
    } else {
        digits_value(d.drop_last()) * 10 + (d.last() as int - '0' as int) as nat
    }
}

/// The text of a number without its optional leading `+`.
pub open spec fn unsigned_text(s: Seq<char>) -> Seq<char> {
    if s.len() > 0 && s[0] == '+' {
        s.drop_first()
    } else {
        s
    }
}

/// The 16-bit unsigned number that `s` writes: an optional `+` followed by
/// one or more decimal digits whose value is at most 65535.
pub open spec fn parsed_u16(s: Seq<char>) -> Option<u16> {
    let d = unsigned_text(s);
    if d.len() > 0 && (forall|i: int| 0 <= i < d.len() ==> is_digit(#[trigger] d[i]))
        && digits_value(d) <= u16::MAX {
        Some(digits_value(d) as u16)
    } else {
        None
    }
}

/// The port that a configuration entry names: a positive 16-bit number.
pub open spec fn port_of(s: Seq<char>) -> Option<u16> {
    match parsed_u16(s) {
        Some(p) => if p > 0 {
            Some(p)
        } else {
            None
        },
        None => None,
    }
}

/// The ports named by `entries`, each once, in the order of its first
/// occurrence; entries that name no port are left out.
pub open spec fn ports_from(entries: Seq<Seq<char>>) -> Seq<u16>
    decreases entries.len(),
{
    if entries.len() == 0 {
        Seq::empty()
    } else {
        let prev = ports_from(entries.drop_last());
        match port_of(entries.last()) {
            Some(p) => if prev.contains(p) {
                prev
            } else {
                prev.push(p)
            },
            None => prev,
        }
    }
}

/// The normalised paths of `entries`, each once, in the order of its first
/// occurrence; entries that normalise to the empty text are left out.
pub open spec fn paths_from(entries: Seq<Seq<char>>) -> Seq<Seq<char>>
    decreases entries.len(),
{
    if entries.len() == 0 {
        Seq::empty()
    } else {
        let prev = paths_from(entries.drop_last());
        let n = normalized(entries.last());
        if n.len() == 0 || prev.contains(n) {
            prev
        } else {
            prev.push(n)
        }
    }
}

/// Relies on `str::parse::<u16>` (`u16::from_str`): an optional `+` sign
/// followed by decimal digits is read as their value when it fits in a
/// `u16`; anything else, including white space, is an error.
#[verifier::external_body]
fn parse_u16(s: &str) -> (r: Option<u16>)
    ensures
        r == parsed_u16(s@),
{
    s.parse::<u16>().ok()
}

/// Whether `v` holds `x`.
fn contains_port(v: &Vec<u16>, x: u16) -> (r: bool)
    ensures
        r == v@.contains(x),
{
    let mut i: usize = 0;
    while i < v.len()
        invariant
            i <= v@.len(),
            forall|k: int| 0 <= k < i ==> v@[k] != x,
        decreases v@.len() - i,
    {
        if v[i] == x {
            return true;
        }
        i = i + 1;
    }
    false
}

/// Whether `v` holds a string equal to `x`.
pub(crate) fn contains_text(v: &Vec<String>, x: &String) -> (r: bool)
    ensures
        r == views(v@).contains(x@),
{
    let mut i: usize = 0;
    while i < v.len()
        invariant
            i <= v@.len(),
            forall|k: int| 0 <= k < i ==> views(v@)[k] != x@,
        decreases v@.len() - i,
    {
        if v[i] == *x {
            assert(views(v@)[i as int] == x@);
            return true;
        }
        i = i + 1;
    }
    false
}

/// The set of ports that `entries` name, without repetition.
pub fn resolve_ports(entries: &Vec<String>) -> (r: Vec<u16>)
    ensures
        r@ == ports_from(views(entries@)),
{
    let mut out: Vec<u16> = Vec::new();
    let mut k: usize = 0;
    while k < entries.len()
        invariant
            k <= entries@.len(),
            out@ == ports_from(views(entries@).subrange(0, k as int)),
        decreases entries@.len() - k,
    {
        proof {
            assert(views(entries@).subrange(0, k + 1).drop_last() =~= views(entries@).subrange(
                0,
                k as int,
            ));
        }
        match parse_u16(entries[k].as_str()) {
            Some(p) => {
                if p > 0 && !contains_port(&out, p) {
                    out.push(p);
                }
            },
            None => {},
        }
        k = k + 1;
    }
    assert(views(entries@).subrange(0, k as int) =~= views(entries@));
    out
}

/// The set of normalised paths that `entries` name, without repetition.
pub fn resolve_paths(entries: &Vec<String>) -> (r: Vec<String>)
    ensures
        views(r@) == paths_from(views(entries@)),
{
    let mut out: Vec<String> = Vec::new();
    let mut k: usize = 0;
    while k < entries.len()
        invariant
            k <= entries@.len(),
            views(out@) == paths_from(views(entries@).subrange(0, k as int)),
        decreases entries@.len() - k,
    {
        proof {
            assert(views(entries@).subrange(0, k + 1).drop_last() =~= views(entries@).subrange(
                0,
                k as int,
            ));
        }
        let n = normalize_path(entries[k].clone());
        if n.as_str().unicode_len() > 0 && !contains_text(&out, &n) {
            let ghost before = views(out@);
            out.push(n);
            assert(views(out@) =~= before.push(n@));
        }
        k = k + 1;
    }
    assert(views(entries@).subrange(0, k as int) =~= views(entries@));
    out
}


/// Normalising a path twice gives what normalising it once gave, for every
/// path that does not end in two slashes after a third character (`/a//`
/// becomes `/a/` and then `/a`).
pub proof fn lemma_normalize_idempotent(p: Seq<char>)
    requires
        !(p.len() >= 3 && p[p.len() - 1] == '/' && p[p.len() - 2] == '/'),
    ensures
        normalized(normalized(p)) == normalized(p),
{
    if !is_root(p) && p.len() > 0 && p.last() == '/' {
        let n = p.drop_last();
        if n.len() > 0 {
            assert(n.last() == p[p.len() - 2]);
            if p.len() == 2 && n.last() == '/' {
                assert(n =~= seq!['/']);
            }
        }
    }
}

/// Each port occurs once in the resolved set, and the set holds exactly the
/// ports that some entry names.
pub proof fn lemma_ports_distinct(entries: Seq<Seq<char>>)
    ensures
        ports_from(entries).no_duplicates(),
        forall|p: u16|
            ports_from(entries).contains(p) <==> exists|i: int|
                0 <= i < entries.len() && port_of(#[trigger] entries[i]) == Some(p),
    decreases entries.len(),
{
    if entries.len() > 0 {
        let init = entries.drop_last();
        lemma_ports_distinct(init);
        let prev = ports_from(init);
        assert forall|p: u16|
            ports_from(entries).contains(p) <==> exists|i: int|
                0 <= i < entries.len() && port_of(#[trigger] entries[i]) == Some(p) by {
            if ports_from(entries).contains(p) {
                if prev.contains(p) {
                    let i = choose|i: int| 0 <= i < init.len() && port_of(#[trigger] init[i]) == Some(p);
                    assert(entries[i] == init[i]);
                } else {
                    assert(port_of(entries[entries.len() - 1]) == Some(p));
                }
            }
            if exists|i: int| 0 <= i < entries.len() && port_of(#[trigger] entries[i]) == Some(p) {
                let i = choose|i: int| 0 <= i < entries.len() && port_of(#[trigger] entries[i]) == Some(p);
                if i < init.len() {
                    assert(init[i] == entries[i]);
                    assert(prev.contains(p));
                } else {
                    assert(prev.contains(p) || ports_from(entries) == prev.push(p));
                    if !prev.contains(p) {
                        assert(ports_from(entries)[prev.len() as int] == p);
                    }
                }
                if prev.contains(p) {
                    let k = choose|k: int| 0 <= k < prev.len() && prev[k] == p;
                    assert(ports_from(entries)[k] == p);
                }
            }
        }
    }
}

/// Each path occurs once in the resolved set, none is empty, and the set
/// holds exactly the non-empty normalisations of the entries.
pub proof fn lemma_paths_distinct(entries: Seq<Seq<char>>)
    ensures
        paths_from(entries).no_duplicates(),
        forall|q: Seq<char>|
            paths_from(entries).contains(q) <==> q.len() > 0 && exists|i: int|
                0 <= i < entries.len() && normalized(#[trigger] entries[i]) == q,
    decreases entries.len(),
{
    if entries.len() > 0 {
        let init = entries.drop_last();
        lemma_paths_distinct(init);
        let prev = paths_from(init);
        assert forall|q: Seq<char>|
            paths_from(entries).contains(q) <==> q.len() > 0 && exists|i: int|
                0 <= i < entries.len() && normalized(#[trigger] entries[i]) == q by {
            if paths_from(entries).contains(q) {
                if prev.contains(q) {
                    let i = choose|i: int| 0 <= i < init.len() && normalized(#[trigger] init[i]) == q;
                    assert(entries[i] == init[i]);
                } else {
                    assert(normalized(entries[entries.len() - 1]) == q);
                }
            }
            if q.len() > 0 && exists|i: int| 0 <= i < entries.len() && normalized(#[trigger] entries[i]) == q {
                let i = choose|i: int| 0 <= i < entries.len() && normalized(#[trigger] entries[i]) == q;
                if i < init.len() {
                    assert(init[i] == entries[i]);
                    assert(prev.contains(q));
                } else {
                    if !prev.contains(q) {
                        assert(paths_from(entries)[prev.len() as int] == q);
                    }
                }
                if prev.contains(q) {
                    let k = choose|k: int| 0 <= k < prev.len() && prev[k] == q;
                    assert(paths_from(entries)[k] == q);
                }
            }
        }
    }
}

} // verus!
