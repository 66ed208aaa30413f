//! Reading what the SNMP programs print.
use vstd::prelude::*;

use crate::split::{lines, lines_of};
use crate::table::{lemma_text_map_insert, text_map, TextMap};
use crate::text::{
    after_prefix, around_first, back_without, copy, front_without, join2, position,
    split_once, strip_prefix, trim, trim_matches, trim_start_char, trim_start_matches,
    trimmed, without_leading,
};

verus! {

/// A printed value without the name of its type, the spaces and the quotes around
/// it.
pub open spec fn value_text(v: Seq<char>) -> Seq<char> {
    let t = trimmed(v);
    let bare = match after_prefix(t, "STRING:"@) {
        Some(s) => trimmed(s),
        None => match after_prefix(t, "Hex-STRING:"@) {
            Some(s) => trimmed(s),
            None => t,
        },
    };
    back_without(front_without(bare, '"'), '"')
}

/// A printed value without the name of its type, the spaces and the quotes around
/// it.
pub fn process_snmp_value(val: &str) -> (r: String)
    ensures
        r@ == value_text(val@),
{
    let t = trim(val);
    let bare = match strip_prefix(t.as_str(), "STRING:") {
        Some(s) => trim(s.as_str()),
        None => match strip_prefix(t.as_str(), "Hex-STRING:") {
            Some(s) => trim(s.as_str()),
            None => t,
        },
    };
    trim_matches(bare.as_str(), '"')
}

/// The value in what was printed for one OID: what follows the first `STRING:`.
pub open spec fn answer_text(out: Seq<char>) -> Result<Seq<char>, Seq<char>> {
    match position(out, "STRING:"@) {
        Some(k) => Ok(value_text(out.skip(k + 7))),
        None => Err("invalid snmp output: "@ + out),
    }
}

/// The value in what was printed for one OID.
pub fn parse_snmp_value(out: &str) -> (r: Result<String, String>)
    ensures
        match (r, answer_text(out@)) {
            (Ok(s), Ok(w)) => s@ == w,
            (Err(e), Err(m)) => e@ == m,
            _ => false,
        },
{
    match split_once(out, "STRING:") {
        Some((_, rest)) => {
            proof {
                reveal_strlit("STRING:");
            }
            Ok(process_snmp_value(rest.as_str()))
        },
        None => Err(join2("invalid snmp output: ", out)),
    }
}

/// An OID that begins with a number.
pub open spec fn numeric_oid(oid: Seq<char>) -> Seq<char> {
    match after_prefix(oid, "iso."@) {
        Some(rest) => "1."@ + rest,
        None => oid,
    }
}

/// An OID that begins with a number: `1.` in place of `iso.`.
pub fn normalize_oid(oid: &str) -> (r: String)
    ensures
        r@ == numeric_oid(oid@),
{
    match strip_prefix(oid, "iso.") {
        Some(rest) => join2("1.", rest.as_str()),
        None => copy(oid),
    }
}

/// What follows the base in an OID.
pub open spec fn walk_index(oid: Seq<char>, base: Seq<char>) -> Seq<char> {
    front_without(without_leading(numeric_oid(oid), base), '.')
}

/// What the printed lines say: the value of each index below the base. Of two lines
/// with one index the later one counts, and a line without ` = ` says nothing.
pub open spec fn walk_of(lines: Seq<Seq<char>>, base: Seq<char>) -> Map<Seq<char>, Seq<char>>
    decreases lines.len(),
{
    if lines.len() == 0 {
        Map::empty()
    } else {
        let before = walk_of(lines.drop_last(), base);
        match around_first(lines.last(), " = "@) {
            Some((oid, v)) => before.insert(walk_index(oid, base), value_text(v)),
            None => before,
        }
    }
}

/// What was printed for all OIDs below the base.
pub fn parse_walk(out: &str, base_oid: &str) -> (r: TextMap<String>)
    ensures
        text_map(r) == walk_of(lines_of(out@), base_oid@),
{
    let all = lines(out);
    let n: usize = all.len();
    let mut map: TextMap<String> = TextMap::new();
    let mut i: usize = 0;
    let ghost ls = lines_of(out@);
    assert(text_map(map) =~= Map::<Seq<char>, Seq<char>>::empty());
    assert(ls.take(0) =~= Seq::<Seq<char>>::empty());
    while i < n
        invariant
            n == all@.len(),
            i <= n,
            crate::text::texts(all@) == ls,
            text_map(map) == walk_of(ls.take(i as int), base_oid@),
        decreases n - i,
    {
        assert(ls.take(i + 1).drop_last() =~= ls.take(i as int));
        assert(ls.take(i + 1).last() == all@[i as int]@);
        match split_once(all[i].as_str(), " = ") {
            Some((oid, val)) => {
                let numeric = normalize_oid(oid.as_str());
                let below = trim_start_matches(numeric.as_str(), base_oid);
                let index = trim_start_char(below.as_str(), '.');
                let value = process_snmp_value(val.as_str());
                proof {
                    lemma_text_map_insert(map@, index@, value);
                }
                let _ = map.insert(index, value);
            },
            None => {},
        }
        i = i + 1;
    }
    assert(ls.take(n as int) =~= ls);
    map
}

// ---------------------------------------------------------------------------
// What is read of what is printed
// ---------------------------------------------------------------------------
/// A text of white space alone.
pub open spec fn blank(s: Seq<char>) -> bool {
    forall|i: int| 0 <= i < s.len() ==> crate::text::is_space(#[trigger] s[i])
}

/// A text that can stand between quotes and be told from them.
pub open spec fn quotable(v: Seq<char>) -> bool {
    v.len() > 0 ==> v[0] != '"' && v[v.len() - 1] != '"'
}

/// A quoted text behind the name of its type is read without both, whatever white space
/// stands around it.
pub proof fn law_quoted_value_is_read(
    a: Seq<char>,
    gap: Seq<char>,
    v: Seq<char>,
    b: Seq<char>,
    q: Seq<char>,
)
    requires
        blank(a),
        blank(gap),
        blank(b),
        quotable(v),
        q == seq!['"'],
    ensures
        value_text(a + ("STRING:"@ + (gap + (q + v + q))) + b) == v,
        value_text(a + ("Hex-STRING:"@ + (gap + (q + v + q))) + b) == v,
        value_text(a + (q + v + q) + b) == v,
{
    reveal_strlit("STRING:");
    reveal_strlit("Hex-STRING:");
    let quoted = q + v + q;
    let none = Seq::<char>::empty();
    assert(quoted[0] == '"' && quoted[quoted.len() - 1] == '"');
    assert(!crate::text::is_space('"'));
    let body = gap + quoted;
    let typed = "STRING:"@ + body;
    let hex = "Hex-STRING:"@ + body;
    assert(typed[0] == 'S' && typed[typed.len() - 1] == '"');
    assert(hex[0] == 'H' && hex[hex.len() - 1] == '"');
    crate::text::law_trimming_gives_back_the_text(a, typed, b);
    crate::text::law_trimming_gives_back_the_text(a, hex, b);
    crate::text::law_trimming_gives_back_the_text(a, quoted, b);
    crate::text::law_trimming_gives_back_the_text(gap, quoted, none);
    assert(gap + quoted + none =~= body);
    crate::text::law_prefix_is_cut_off("STRING:"@, body, typed);
    crate::text::law_prefix_is_cut_off("Hex-STRING:"@, body, hex);
    assert(!"STRING:"@.is_prefix_of(hex)) by {
        if "STRING:"@.is_prefix_of(hex) {
            assert(hex.take(7)[0] == "STRING:"@[0]);
        }
    }
    assert(!"STRING:"@.is_prefix_of(quoted)) by {
        if "STRING:"@.is_prefix_of(quoted) {
            assert(quoted.take(7)[0] == "STRING:"@[0]);
        }
    }
    assert(!"Hex-STRING:"@.is_prefix_of(quoted)) by {
        if "Hex-STRING:"@.is_prefix_of(quoted) {
            assert(quoted.take(11)[0] == "Hex-STRING:"@[0]);
        }
    }
    crate::text::law_copies_around_are_taken_off(q, v, q, '"');
}

/// The value that was printed for one OID is the quoted text behind the first
/// `STRING:`; without that there is none, and the error tells what was printed.
pub proof fn law_answer_is_the_quoted_text(
    before: Seq<char>,
    gap: Seq<char>,
    v: Seq<char>,
    b: Seq<char>,
    q: Seq<char>,
    out: Seq<char>,
)
    requires
        blank(gap),
        blank(b),
        quotable(v),
        q == seq!['"'],
    ensures
        ({
            let printed = before + "STRING:"@ + (gap + (q + v + q) + b);
            (forall|i: int|
                0 <= i < before.len() ==> !crate::text::occurs_at(printed, "STRING:"@, i))
                ==> answer_text(printed) == Ok::<Seq<char>, Seq<char>>(v)
        }),
        (forall|i: int| !crate::text::occurs_at(out, "STRING:"@, i)) ==> answer_text(out) == Err::<
            Seq<char>,
            Seq<char>,
        >("invalid snmp output: "@ + out),
{
    reveal_strlit("STRING:");
    let rest = gap + (q + v + q) + b;
    let printed = before + "STRING:"@ + rest;
    if forall|i: int| 0 <= i < before.len() ==> !crate::text::occurs_at(printed, "STRING:"@, i) {
        crate::text::law_cut_gives_back_the_parts(before, "STRING:"@, rest);
        law_quoted_value_is_read(gap, Seq::empty(), v, b, q);
    }
    if forall|i: int| !crate::text::occurs_at(out, "STRING:"@, i) {
        crate::text::law_nothing_is_cut_without_separator(out, "STRING:"@);
    }
}

/// A printed line tells the value of the index that follows the base in its OID, also
/// where the OID is printed with `iso.` in place of `1.`, and takes the place of what
/// was told of that index before; a line without ` = ` tells nothing.
pub proof fn law_line_tells_the_value_of_an_index(
    before: Seq<Seq<char>>,
    root: Seq<char>,
    index: Seq<char>,
    printed: Seq<char>,
    v: Seq<char>,
    other: Seq<char>,
)
    requires
        value_text(printed) == v,
        index.len() > 0 ==> index[0] != '.',
        forall|i: int| 0 <= i < root.len() ==> #[trigger] root[i] != ' ',
        forall|i: int| 0 <= i < index.len() ==> #[trigger] index[i] != ' ',
        forall|i: int| !crate::text::occurs_at(other, " = "@, i),
    ensures
        ({
            let base = "1."@ + root;
            let below = root + "."@ + index;
            let told = walk_of(before, base).insert(index, v);
            &&& walk_of(before.push("1."@ + below + " = "@ + printed), base) == told
            &&& walk_of(before.push("iso."@ + below + " = "@ + printed), base) == told
            &&& walk_of(before.push(other), base) == walk_of(before, base)
            &&& walk_of(Seq::empty(), base) == Map::<Seq<char>, Seq<char>>::empty()
        }),
{
    reveal_strlit("1.");
    reveal_strlit("iso.");
    reveal_strlit(".");
    reveal_strlit(" = ");
    let base = "1."@ + root;
    let below = root + "."@ + index;
    assert(before.push(other).drop_last() =~= before);
    assert(before.push(other).last() == other);
    crate::text::law_nothing_is_cut_without_separator(other, " = "@);
    let numeric = "1."@ + below;
    let named = "iso."@ + below;
    lemma_line(before, numeric, printed, base, index, v, root);
    lemma_line(before, named, printed, base, index, v, root);
}

proof fn lemma_line(
    before: Seq<Seq<char>>,
    oid: Seq<char>,
    printed: Seq<char>,
    base: Seq<char>,
    index: Seq<char>,
    v: Seq<char>,
    root: Seq<char>,
)
    requires
        value_text(printed) == v,
        base == "1."@ + root,
        oid == "1."@ + (root + "."@ + index) || oid == "iso."@ + (root + "."@ + index),
        index.len() > 0 ==> index[0] != '.',
        forall|i: int| 0 <= i < root.len() ==> #[trigger] root[i] != ' ',
        forall|i: int| 0 <= i < index.len() ==> #[trigger] index[i] != ' ',
    ensures
        walk_of(before.push(oid + " = "@ + printed), base) == walk_of(before, base).insert(
            index,
            v,
        ),
{
    reveal_strlit("1.");
    reveal_strlit("iso.");
    reveal_strlit(".");
    reveal_strlit(" = ");
    let below = root + "."@ + index;
    let line = oid + " = "@ + printed;
    assert(before.push(line).drop_last() =~= before);
    assert(before.push(line).last() == line);
    assert forall|i: int| 0 <= i < oid.len() implies #[trigger] oid[i] != ' ' by {
        let k = if oid == "1."@ + below {
            2int
        } else {
            4int
        };
        if i >= k {
            assert(oid[i] == below[i - k]);
            if i - k < root.len() {
                assert(below[i - k] == root[i - k]);
            } else if i - k > root.len() {
                assert(below[i - k] == index[i - k - root.len() - 1]);
            }
        }
    }
    assert forall|i: int| 0 <= i < oid.len() implies !crate::text::occurs_at(line, " = "@, i) by {
        if crate::text::occurs_at(line, " = "@, i) {
            assert(line.subrange(i, i + 3)[0] == " = "@[0]);
            assert(line[i] == oid[i]);
        }
    }
    crate::text::law_cut_gives_back_the_parts(oid, " = "@, printed);
    assert(numeric_oid(oid) == "1."@ + below) by {
        if oid == "iso."@ + below {
            crate::text::law_prefix_is_cut_off("iso."@, below, oid);
        } else {
            if "iso."@.is_prefix_of(oid) {
                assert(oid.take(4)[0] == "iso."@[0]);
            }
        }
    }
    let rest = "."@ + index;
    assert("1."@ + below =~= base + rest);
    assert(!base.is_prefix_of(rest)) by {
        if base.is_prefix_of(rest) {
            assert(rest.take(base.len() as int)[0] == base[0]);
        }
    }
    crate::text::law_leading_copies_are_taken_off(rest, base);
    assert(front_without(rest, '.') == index) by {
        assert(rest.first() == '.');
        assert(rest.drop_first() =~= index);
        assert(front_without(rest, '.') == front_without(index, '.'));
        assert(index.len() > 0 ==> index.first() == index[0]);
    }
}

} // verus!
