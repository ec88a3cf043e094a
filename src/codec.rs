use vstd::prelude::*;

use crate::geometry::Point;
use crate::model::{
    columns_view, foreign_keys_view, tables_view, Column, ColumnView, ForeignKey, ForeignKeyView,
    Model, Table, TablePoint, TableView,
};
use crate::text::{digit_spec, int_text, nat_text, push_char, push_int};

verus! {

pub open spec fn is_digit(c: char) -> bool {
    48 <= (c as u32) && (c as u32) <= 57
}

pub open spec fn digit_value(c: char) -> int {
    (c as u32) - 48
}

/// How a character is written inside a quoted string: quote and backslash get
/// a backslash before them; every other character stands as it is.
pub open spec fn esc_char(c: char) -> Seq<char> {
    if c == '"' || c == '\\' {
        seq!['\\', c]
    } else {
        seq![c]
    }
}

/// The body of a quoted string.
pub open spec fn esc(s: Seq<char>) -> Seq<char>
    decreases s.len(),
{
    if s.len() == 0 {
        Seq::empty()
    } else {
        esc_char(s[0]) + esc(s.drop_first())
    }
}

/// A string in quotes.
pub open spec fn str_json(s: Seq<char>) -> Seq<char> {
    seq!['"'] + esc(s) + seq!['"']
}

/// Whether `lit` stands in `s` at `j`.
pub open spec fn lit_at(s: Seq<char>, j: int, lit: Seq<char>) -> bool {
    0 <= j && j + lit.len() <= s.len() && s.subrange(j, j + lit.len()) == lit
}

/// Reads the body of a quoted string from `j`, after what `acc` holds, up to and
/// past its closing quote.
pub open spec fn parse_str_body(s: Seq<char>, j: int, acc: Seq<char>) -> Option<(Seq<char>, int)>
    decreases s.len() - j,
{
    if j < 0 || j >= s.len() {
        None
    } else if s[j] == '"' {
        Some((acc, j + 1))
    } else if s[j] == '\\' {
        if j + 1 < s.len() && (s[j + 1] == '"' || s[j + 1] == '\\') {
            parse_str_body(s, j + 2, acc.push(s[j + 1]))
        } else {
            None
        }
    } else {
        parse_str_body(s, j + 1, acc.push(s[j]))
    }
}

/// Reads a quoted string at `j`.
#[verifier::opaque]
pub open spec fn parse_str(s: Seq<char>, j: int) -> Option<(Seq<char>, int)> {
    if 0 <= j < s.len() && s[j] == '"' {
        parse_str_body(s, j + 1, Seq::empty())
    } else {
        None
    }
}

proof fn lemma_esc_append(a: Seq<char>, b: Seq<char>)
    ensures
        esc(a + b) == esc(a) + esc(b),
    decreases a.len(),
{
    if a.len() == 0 {
        assert(a + b =~= b);
    } else {
        assert((a + b).drop_first() =~= a.drop_first() + b);
        lemma_esc_append(a.drop_first(), b);
        assert(esc(a + b) =~= esc(a) + esc(b));
    }
}

proof fn lemma_esc_push(a: Seq<char>, c: char)
    ensures
        esc(a.push(c)) == esc(a) + esc_char(c),
{
    lemma_esc_append(a, seq![c]);
    assert(a.push(c) =~= a + seq![c]);
    assert(seq![c].drop_first() =~= Seq::<char>::empty());
    assert(esc(Seq::<char>::empty()) =~= Seq::<char>::empty());
    assert(seq![c][0] == c);
    assert(esc(seq![c]) =~= esc_char(c));
}

/// `lit` stands where it was put.
pub proof fn lemma_lit(pre: Seq<char>, lit: Seq<char>, post: Seq<char>)
    ensures
        lit_at(pre + lit + post, pre.len() as int, lit),
{
    assert((pre + lit + post).subrange(pre.len() as int, (pre.len() + lit.len()) as int) =~= lit);
}

proof fn lemma_parse_str_body(pre: Seq<char>, v: Seq<char>, post: Seq<char>, acc: Seq<char>)
    ensures
        parse_str_body(pre + esc(v) + seq!['"'] + post, pre.len() as int, acc) == Some(
            (acc + v, (pre.len() + esc(v).len() + 1) as int),
        ),
    decreases v.len(),
{
    let s = pre + esc(v) + seq!['"'] + post;
    let j = pre.len() as int;
    if v.len() == 0 {
        assert(s[j] == '"');
        assert(acc + v =~= acc);
    } else {
        let c = v[0];
        let rest = v.drop_first();
        assert(v =~= seq![c] + rest);
        if c == '"' || c == '\\' {
            let pre2 = pre + seq!['\\', c];
            assert(s =~= pre2 + esc(rest) + seq!['"'] + post);
            assert(s[j] == '\\');
            assert(s[j + 1] == c);
            lemma_parse_str_body(pre2, rest, post, acc.push(c));
            assert(acc.push(c) + rest =~= acc + v);
        } else {
            let pre2 = pre + seq![c];
            assert(s =~= pre2 + esc(rest) + seq!['"'] + post);
            assert(s[j] == c);
            lemma_parse_str_body(pre2, rest, post, acc.push(c));
            assert(acc.push(c) + rest =~= acc + v);
        }
    }
}

/// A quoted string reads back as the string that was written.
pub proof fn lemma_parse_str(pre: Seq<char>, v: Seq<char>, post: Seq<char>)
    ensures
        parse_str(pre + str_json(v) + post, pre.len() as int) == Some(
            (v, (pre.len() + str_json(v).len()) as int),
        ),
{
    reveal(parse_str);
    let s = pre + str_json(v) + post;
    assert(s =~= (pre + seq!['"']) + esc(v) + seq!['"'] + post);
    assert(s[pre.len() as int] == '"');
    lemma_parse_str_body(pre + seq!['"'], v, post, Seq::empty());
    assert(Seq::<char>::empty() + v =~= v);
}

/// Appends a string in quotes.
pub fn push_str_json(out: &mut String, v: &str)
    ensures
        final(out)@ == old(out)@ + str_json(v@),
{
    let cs = crate::text::chars_of(v);
    push_char(out, '"');
    let mut i: usize = 0;
    while i < cs.len()
        invariant
            i <= cs.len(),
            cs@ == v@,
            out@ == old(out)@ + seq!['"'] + esc(cs@.take(i as int)),
        decreases cs.len() - i,
    {
        let c = cs[i];
        if c == '"' || c == '\\' {
            push_char(out, '\\');
        }
        push_char(out, c);
        proof {
            lemma_esc_push(cs@.take(i as int), c);
            assert(cs@.take(i + 1) =~= cs@.take(i as int).push(c));
        }
        i += 1;
        assert(out@ =~= old(out)@ + seq!['"'] + esc(cs@.take(i as int)));
    }
    push_char(out, '"');
    assert(cs@.take(i as int) =~= v@);
    assert(out@ =~= old(out)@ + str_json(v@));
}

/// Reads a quoted string at `j`.
pub fn read_str(s: &Vec<char>, j: usize) -> (r: Option<(String, usize)>)
    ensures
        match r {
            Some((v, k)) => parse_str(s@, j as int) == Some((v@, k as int)),
            None => parse_str(s@, j as int) is None,
        },
{
    reveal(parse_str);
    if j >= s.len() || s[j] != '"' {
        return None;
    }
    let mut out = String::new();
    let mut k: usize = j + 1;
    while k < s.len()
        invariant
            j < s.len(),
            j + 1 <= k <= s.len(),
            parse_str(s@, j as int) == parse_str_body(s@, k as int, out@),
        decreases s.len() - k,
    {
        let c = s[k];
        if c == '"' {
            return Some((out, k + 1));
        } else if c == '\\' {
            if k + 1 < s.len() && (s[k + 1] == '"' || s[k + 1] == '\\') {
                push_char(&mut out, s[k + 1]);
                k = k + 2;
            } else {
                return None;
            }
        } else {
            push_char(&mut out, c);
            k = k + 1;
        }
    }
    None
}

/// The number that digits `d` make after `acc`, read left to right.
pub open spec fn digits_value(acc: int, d: Seq<char>) -> int
    decreases d.len(),
{
    if d.len() == 0 {
        acc
    } else {
        digits_value(acc * 10 + digit_value(d[0]), d.drop_first())
    }
}

/// Reads decimal digits at `j` after `count` digits that made `acc`; at most
/// nineteen digits in all, and at least one.
pub open spec fn parse_digits(s: Seq<char>, j: int, acc: int, count: int) -> Option<(int, int)>
    decreases s.len() - j,
{
    if 0 <= j < s.len() && is_digit(s[j]) {
        if count >= 19 {
            None
        } else {
            parse_digits(s, j + 1, acc * 10 + digit_value(s[j]), count + 1)
        }
    } else if count == 0 {
        None
    } else {
        Some((acc, j))
    }
}

/// Reads an integer at `j`: an optional minus sign and digits, within `i64`.
#[verifier::opaque]
pub open spec fn parse_int(s: Seq<char>, j: int) -> Option<(int, int)> {
    if 0 <= j < s.len() && s[j] == '-' {
        match parse_digits(s, j + 1, 0, 0) {
            Some((n, k)) => if n <= 9_223_372_036_854_775_808 {
                Some((-n, k))
            } else {
                None
            },
            None => None,
        }
    } else {
        match parse_digits(s, j, 0, 0) {
            Some((n, k)) => if n <= 9_223_372_036_854_775_807 {
                Some((n, k))
            } else {
                None
            },
            None => None,
        }
    }
}

pub open spec fn all_digits(d: Seq<char>) -> bool {
    forall|i: int| 0 <= i < d.len() ==> is_digit(#[trigger] d[i])
}

pub open spec fn pow10(k: nat) -> int
    decreases k,
{
    if k == 0 {
        1
    } else {
        10 * pow10((k - 1) as nat)
    }
}

proof fn lemma_digits_value_push(acc: int, d: Seq<char>, c: char)
    ensures
        digits_value(acc, d.push(c)) == digits_value(acc, d) * 10 + digit_value(c),
    decreases d.len(),
{
    if d.len() == 0 {
        assert(d.push(c).drop_first() =~= Seq::<char>::empty());
        assert(d.push(c)[0] == c);
        assert(digits_value(acc * 10 + digit_value(c), Seq::<char>::empty()) == acc * 10
            + digit_value(c));
        assert(digits_value(acc, d) == acc);
    } else {
        assert(d.push(c).drop_first() =~= d.drop_first().push(c));
        assert(d.push(c)[0] == d[0]);
        lemma_digits_value_push(acc * 10 + digit_value(d[0]), d.drop_first(), c);
    }
}

proof fn lemma_nat_text(n: nat, k: nat)
    requires
        n < pow10(k),
        k >= 1,
    ensures
        all_digits(nat_text(n)),
        1 <= nat_text(n).len() <= k,
        digits_value(0, nat_text(n)) == n,
    decreases n,
{
    if n < 10 {
        lemma_digit(n as int);
        let t = nat_text(n);
        assert(t.drop_first() =~= Seq::<char>::empty());
        assert(t[0] == digit_spec(n as int));
        assert(digits_value((0 * 10 + n) as int, Seq::<char>::empty()) == n);
    } else {
        let q = n / 10;
        assert(k >= 2) by {
            if k == 1 {
                assert(pow10(1) == 10) by {
                    assert(pow10(0) == 1);
                }
            }
        }
        assert(q < pow10((k - 1) as nat)) by {
            assert(pow10(k) == 10 * pow10((k - 1) as nat));
        }
        lemma_nat_text(q, (k - 1) as nat);
        lemma_digit((n % 10) as int);
        lemma_digits_value_push(0, nat_text(q), digit_spec((n % 10) as int));
        let t = nat_text(n);
        assert forall|i: int| 0 <= i < t.len() implies is_digit(#[trigger] t[i]) by {
            if i < t.len() - 1 {
                assert(t[i] == nat_text(q)[i]);
            }
        }
    }
}

proof fn lemma_parse_digits(pre: Seq<char>, d: Seq<char>, post: Seq<char>, acc: int, count: int)
    requires
        all_digits(d),
        0 <= count,
        count + d.len() <= 19,
        post.len() == 0 || !is_digit(post[0]),
    ensures
        parse_digits(pre + d + post, pre.len() as int, acc, count) == if count + d.len() == 0 {
            None
        } else {
            Some((digits_value(acc, d), (pre.len() + d.len()) as int))
        },
    decreases d.len(),
{
    let s = pre + d + post;
    let j = pre.len() as int;
    if d.len() == 0 {
        assert(s =~= pre + post);
        if post.len() > 0 {
            assert(s[j] == post[0]);
        }
    } else {
        assert(s[j] == d[0]);
        assert(is_digit(d[0]));
        let pre2 = pre.push(d[0]);
        assert(s =~= pre2 + d.drop_first() + post);
        lemma_parse_digits(pre2, d.drop_first(), post, acc * 10 + digit_value(d[0]), count + 1);
    }
}

/// An integer's text reads back as the integer, when no digit follows it.
pub proof fn lemma_parse_int(pre: Seq<char>, v: i64, post: Seq<char>)
    requires
        post.len() == 0 || !is_digit(post[0]),
    ensures
        parse_int(pre + int_text(v as int) + post, pre.len() as int) == Some(
            (v as int, (pre.len() + int_text(v as int).len()) as int),
        ),
{
    reveal(parse_int);
    let s = pre + int_text(v as int) + post;
    lemma_pow10_19();
    if v < 0 {
        let n = (-v) as nat;
        lemma_nat_text(n, 19);
        let pre2 = pre.push('-');
        assert(s =~= pre2 + nat_text(n) + post);
        assert(s[pre.len() as int] == '-');
        lemma_parse_digits(pre2, nat_text(n), post, 0, 0);
    } else {
        let n = v as nat;
        lemma_nat_text(n, 19);
        lemma_parse_digits(pre, nat_text(n), post, 0, 0);
        if n < 10 {
        }
        assert(nat_text(n)[0] != '-') by {
            assert(is_digit(nat_text(n)[0]));
        }
        assert(s[pre.len() as int] == nat_text(n)[0]);
    }
}

fn digit_char(c: char) -> (r: bool)
    ensures
        r == is_digit(c),
{
    let u = c as u32;
    48 <= u && u <= 57
}

/// Reads an integer at `j`.
pub fn read_int(s: &Vec<char>, j: usize) -> (r: Option<(i64, usize)>)
    ensures
        match r {
            Some((v, k)) => parse_int(s@, j as int) == Some((v as int, k as int)),
            None => parse_int(s@, j as int) is None,
        },
{
    reveal(parse_int);
    if j >= s.len() {
        return None;
    }
    let negative = s[j] == '-';
    let start = if negative {
        j + 1
    } else {
        j
    };
    let mut acc: u64 = 0;
    let mut count: u64 = 0;
    let mut k: usize = start;
    while k < s.len() && digit_char(s[k])
        invariant
            j < s.len(),
            negative == (s@[j as int] == '-'),
            start == if negative {
                j + 1
            } else {
                j as int
            },
            start <= k <= s.len(),
            count <= 19,
            acc < pow10(count as nat),
            parse_digits(s@, start as int, 0, 0) == parse_digits(s@, k as int, acc as int, count as int),
        decreases s.len() - k,
    {
        assert(is_digit(s@[k as int]));
        if count >= 19 {
            proof {
                reveal(parse_int);
            }
            return None;
        }
        let d = (s[k] as u32 - 48) as u64;
        proof {
            assert(pow10((count + 1) as nat) == 10 * pow10(count as nat));
            assert(acc * 10 + d < pow10((count + 1) as nat)) by (nonlinear_arith)
                requires
                    acc < pow10(count as nat),
                    d < 10,
                    pow10((count + 1) as nat) == 10 * pow10(count as nat),
            ;
            lemma_pow10_19();
            lemma_pow10_mono((count + 1) as nat, 19);
        }
        acc = acc * 10 + d;
        count = count + 1;
        k = k + 1;
    }
    assert(parse_digits(s@, k as int, acc as int, count as int) == if count == 0 {
        None
    } else {
        Some((acc as int, k as int))
    });
    if count == 0 {
        return None;
    }
    if negative {
        if acc <= 9_223_372_036_854_775_808 {
            let v: i64 = if acc == 9_223_372_036_854_775_808 {
                i64::MIN
            } else {
                -(acc as i64)
            };
            Some((v, k))
        } else {
            None
        }
    } else {
        if acc <= 9_223_372_036_854_775_807 {
            Some((acc as i64, k))
        } else {
            None
        }
    }
}

proof fn lemma_pow10_19()
    ensures
        pow10(19) == 10_000_000_000_000_000_000,
{
    assert(pow10(0) == 1);
    assert(pow10(1) == 10);
    assert(pow10(2) == 100);
    assert(pow10(3) == 1_000);
    assert(pow10(4) == 10_000);
    assert(pow10(5) == 100_000);
    assert(pow10(6) == 1_000_000);
    assert(pow10(7) == 10_000_000);
    assert(pow10(8) == 100_000_000);
    assert(pow10(9) == 1_000_000_000);
    assert(pow10(10) == 10_000_000_000);
    assert(pow10(11) == 100_000_000_000);
    assert(pow10(12) == 1_000_000_000_000);
    assert(pow10(13) == 10_000_000_000_000);
    assert(pow10(14) == 100_000_000_000_000);
    assert(pow10(15) == 1_000_000_000_000_000);
    assert(pow10(16) == 10_000_000_000_000_000);
    assert(pow10(17) == 100_000_000_000_000_000);
    assert(pow10(18) == 1_000_000_000_000_000_000);
    assert(pow10(19) == 10_000_000_000_000_000_000);
}

proof fn lemma_pow10_mono(a: nat, b: nat)
    requires
        a <= b,
    ensures
        1 <= pow10(a) <= pow10(b),
    decreases b,
{
    if a < b {
        lemma_pow10_mono(a, (b - 1) as nat);
    } else {
        lemma_pow10_pos(a);
    }
}

proof fn lemma_pow10_pos(k: nat)
    ensures
        1 <= pow10(k),
    decreases k,
{
    if k > 0 {
        lemma_pow10_pos((k - 1) as nat);
    }
}

/// The position after `lit`, if it stands at `j`.
pub open spec fn after_lit(s: Seq<char>, j: int, lit: Seq<char>) -> Option<int> {
    if lit_at(s, j, lit) {
        Some(j + lit.len())
    } else {
        None
    }
}

proof fn lemma_after_lit(pre: Seq<char>, lit: Seq<char>, post: Seq<char>)
    ensures
        after_lit(pre + lit + post, pre.len() as int, lit) == Some((pre.len() + lit.len()) as int),
{
    lemma_lit(pre, lit, post);
}

/// Whether `lit` stands at `j`; the position after it.
pub fn expect(s: &Vec<char>, j: usize, lit: &str) -> (r: Option<usize>)
    ensures
        match r {
            Some(k) => after_lit(s@, j as int, lit@) == Some(k as int),
            None => after_lit(s@, j as int, lit@) is None,
        },
{
    let n = lit.unicode_len();
    if j > s.len() || n > s.len() - j {
        return None;
    }
    let mut k: usize = 0;
    while k < n
        invariant
            n == lit@.len(),
            j + n <= s.len(),
            k <= n,
            forall|i: int| 0 <= i < k ==> s@[j + i] == lit@[i],
        decreases n - k,
    {
        if s[j + k] != lit.get_char(k) {
            assert(s@.subrange(j as int, j + n)[k as int] != lit@[k as int]);
            return None;
        }
        k += 1;
    }
    assert(s@.subrange(j as int, j + n) =~= lit@);
    Some(j + n)
}

/// A column as a JSON object.
#[verifier::opaque]
pub open spec fn column_json(c: ColumnView) -> Seq<char> {
    "{\"name\":"@ + str_json(c.name) + ",\"data_type\":"@ + str_json(c.data_type) + "}"@
}

/// A foreign key as a JSON object.
#[verifier::opaque]
pub open spec fn foreign_key_json(f: ForeignKeyView) -> Seq<char> {
    "{\"column\":"@ + str_json(f.column) + ",\"referenced_table\":"@ + str_json(f.referenced_table)
        + "}"@
}

/// The boolean `b` as JSON.
pub open spec fn bool_json(b: bool) -> Seq<char> {
    if b {
        "true"@
    } else {
        "false"@
    }
}

/// A table as a JSON object: every persisted field, its position as a pair.
#[verifier::opaque]
pub open spec fn table_json(t: TableView) -> Seq<char> {
    table_head_json(t) + table_rest_json(t)
}

/// The start of a table object: its names.
#[verifier::opaque]
pub open spec fn table_head_json(t: TableView) -> Seq<char> {
    "{\"name\":"@ + str_json(t.name) + ",\"schema\":"@ + str_json(t.schema) + ",\"subject_area\":"@
        + str_json(t.subject_area)
}

/// The rest of a table object: position, columns, foreign keys and visibility.
#[verifier::opaque]
pub open spec fn table_rest_json(t: TableView) -> Seq<char> {
    ",\"position\":["@ + int_text(t.position.x as int) + ","@ + int_text(t.position.y as int)
        + "],\"columns\":"@ + columns_json(t.columns) + ",\"foreign_keys\":"@ + foreign_keys_json(
        t.foreign_keys,
    ) + ",\"visible\":"@ + bool_json(t.visible) + "}"@
}

/// A model as a JSON object.
pub open spec fn model_json(ts: Seq<TableView>) -> Seq<char> {
    "{\"tables\":"@ + tables_json(ts) + "}"@
}

/// Reads a boolean at `j`.
#[verifier::opaque]
pub open spec fn parse_bool(s: Seq<char>, j: int) -> Option<(bool, int)> {
    match after_lit(s, j, "true"@) {
        Some(k) => Some((true, k)),
        None => match after_lit(s, j, "false"@) {
            Some(k) => Some((false, k)),
            None => None,
        },
    }
}

/// Reads a column object at `j`.
#[verifier::opaque]
pub open spec fn parse_column(s: Seq<char>, j: int) -> Option<(ColumnView, int)> {
    match after_lit(s, j, "{\"name\":"@) {
        None => None,
        Some(a) => match parse_str(s, a) {
            None => None,
            Some((name, b)) => match after_lit(s, b, ",\"data_type\":"@) {
                None => None,
                Some(c) => match parse_str(s, c) {
                    None => None,
                    Some((data_type, d)) => match after_lit(s, d, "}"@) {
                        None => None,
                        Some(e) => Some((ColumnView { name, data_type }, e)),
                    },
                },
            },
        },
    }
}

/// Reads a foreign key object at `j`.
#[verifier::opaque]
pub open spec fn parse_foreign_key(s: Seq<char>, j: int) -> Option<(ForeignKeyView, int)> {
    match after_lit(s, j, "{\"column\":"@) {
        None => None,
        Some(a) => match parse_str(s, a) {
            None => None,
            Some((column, b)) => match after_lit(s, b, ",\"referenced_table\":"@) {
                None => None,
                Some(c) => match parse_str(s, c) {
                    None => None,
                    Some((referenced_table, d)) => match after_lit(s, d, "}"@) {
                        None => None,
                        Some(e) => Some((ForeignKeyView { column, referenced_table }, e)),
                    },
                },
            },
        },
    }
}

/// Reads a table object at `j`.
#[verifier::opaque]
pub open spec fn parse_table(s: Seq<char>, j: int) -> Option<(TableView, int)> {
    match after_lit(s, j, "{\"name\":"@) {
        None => None,
        Some(a) => match parse_str(s, a) {
            None => None,
            Some((name, b)) => match after_lit(s, b, ",\"schema\":"@) {
                None => None,
                Some(c) => match parse_str(s, c) {
                    None => None,
                    Some((schema, d)) => match after_lit(s, d, ",\"subject_area\":"@) {
                        None => None,
                        Some(e) => match parse_str(s, e) {
                            None => None,
                            Some((subject_area, f)) => parse_table_rest(
                                s,
                                f,
                                name,
                                schema,
                                subject_area,
                            ),
                        },
                    },
                },
            },
        },
    }
}

/// Reads the rest of a table object at `j`, from its position on.
#[verifier::opaque]
pub open spec fn parse_table_rest(
    s: Seq<char>,
    j: int,
    name: Seq<char>,
    schema: Seq<char>,
    subject_area: Seq<char>,
) -> Option<(TableView, int)> {
    match after_lit(s, j, ",\"position\":["@) {
        None => None,
        Some(a) => match parse_int(s, a) {
            None => None,
            Some((x, b)) => match after_lit(s, b, ","@) {
                None => None,
                Some(c) => match parse_int(s, c) {
                    None => None,
                    Some((y, d)) => match after_lit(s, d, "],\"columns\":"@) {
                        None => None,
                        Some(e) => match parse_columns(s, e) {
                            None => None,
                            Some((columns, f)) => match after_lit(s, f, ",\"foreign_keys\":"@) {
                                None => None,
                                Some(g) => match parse_foreign_keys(s, g) {
                                    None => None,
                                    Some((foreign_keys, h)) => match after_lit(
                                        s,
                                        h,
                                        ",\"visible\":"@,
                                    ) {
                                        None => None,
                                        Some(k) => match parse_bool(s, k) {
                                            None => None,
                                            Some((visible, m)) => match after_lit(s, m, "}"@) {
                                                None => None,
                                                Some(n) => Some(
                                                    (
                                                        TableView {
                                                            name,
                                                            schema,
                                                            subject_area,
                                                            position: Point {
                                                                x: x as i64,
                                                                y: y as i64,
                                                            },
                                                            columns,
                                                            foreign_keys,
                                                            visible,
                                                        },
                                                        n,
                                                    ),
                                                ),
                                            },
                                        },
                                    },
                                },
                            },
                        },
                    },
                },
            },
        },
    }
}

/// Reads a whole model: a table list in an object, and nothing after it.
pub open spec fn parse_model(s: Seq<char>) -> Option<Seq<TableView>> {
    match after_lit(s, 0, "{\"tables\":"@) {
        None => None,
        Some(a) => match parse_tables(s, a) {
            None => None,
            Some((ts, b)) => match after_lit(s, b, "}"@) {
                Some(c) => if c == s.len() {
                    Some(ts)
                } else {
                    None
                },
                None => None,
            },
        },
    }
}

/// The items of a list of columns, separated by commas.
pub open spec fn columns_items(v: Seq<ColumnView>) -> Seq<char>
    decreases v.len(),
{
    if v.len() == 0 {
        Seq::empty()
    } else if v.len() == 1 {
        column_json(v[0])
    } else {
        column_json(v[0]) + ","@ + columns_items(v.drop_first())
    }
}

/// A list of columns as a JSON array.
pub open spec fn columns_json(v: Seq<ColumnView>) -> Seq<char> {
    "["@ + columns_items(v) + "]"@
}

/// Reads the items of a list of columns at `j`, after those in `acc`, up to and
/// past the closing bracket.
pub open spec fn parse_columns_items(s: Seq<char>, j: int, acc: Seq<ColumnView>) -> Option<
    (Seq<ColumnView>, int),
>
    decreases s.len() - j,
{
    match parse_column(s, j) {
        None => None,
        Some((item, k)) => if k <= j {
            None
        } else {
            match after_lit(s, k, ","@) {
                Some(m) => parse_columns_items(s, m, acc.push(item)),
                None => match after_lit(s, k, "]"@) {
                    Some(m) => Some((acc.push(item), m)),
                    None => None,
                },
            }
        },
    }
}

/// Reads a list of columns at `j`.
#[verifier::opaque]
pub open spec fn parse_columns(s: Seq<char>, j: int) -> Option<(Seq<ColumnView>, int)> {
    match after_lit(s, j, "["@) {
        None => None,
        Some(a) => match after_lit(s, a, "]"@) {
            Some(b) => Some((Seq::empty(), b)),
            None => parse_columns_items(s, a, Seq::empty()),
        },
    }
}

/// The items of a list of foreign_keys, separated by commas.
pub open spec fn foreign_keys_items(v: Seq<ForeignKeyView>) -> Seq<char>
    decreases v.len(),
{
    if v.len() == 0 {
        Seq::empty()
    } else if v.len() == 1 {
        foreign_key_json(v[0])
    } else {
        foreign_key_json(v[0]) + ","@ + foreign_keys_items(v.drop_first())
    }
}

/// A list of foreign_keys as a JSON array.
pub open spec fn foreign_keys_json(v: Seq<ForeignKeyView>) -> Seq<char> {
    "["@ + foreign_keys_items(v) + "]"@
}

/// Reads the items of a list of foreign_keys at `j`, after those in `acc`, up to and
/// past the closing bracket.
pub open spec fn parse_foreign_keys_items(s: Seq<char>, j: int, acc: Seq<ForeignKeyView>) -> Option<
    (Seq<ForeignKeyView>, int),
>
    decreases s.len() - j,
{
    match parse_foreign_key(s, j) {
        None => None,
        Some((item, k)) => if k <= j {
            None
        } else {
            match after_lit(s, k, ","@) {
                Some(m) => parse_foreign_keys_items(s, m, acc.push(item)),
                None => match after_lit(s, k, "]"@) {
                    Some(m) => Some((acc.push(item), m)),
                    None => None,
                },
            }
        },
    }
}

/// Reads a list of foreign_keys at `j`.
#[verifier::opaque]
pub open spec fn parse_foreign_keys(s: Seq<char>, j: int) -> Option<(Seq<ForeignKeyView>, int)> {
    match after_lit(s, j, "["@) {
        None => None,
        Some(a) => match after_lit(s, a, "]"@) {
            Some(b) => Some((Seq::empty(), b)),
            None => parse_foreign_keys_items(s, a, Seq::empty()),
        },
    }
}

/// The items of a list of tables, separated by commas.
pub open spec fn tables_items(v: Seq<TableView>) -> Seq<char>
    decreases v.len(),
{
    if v.len() == 0 {
        Seq::empty()
    } else if v.len() == 1 {
        table_json(v[0])
    } else {
        table_json(v[0]) + ","@ + tables_items(v.drop_first())
    }
}

/// A list of tables as a JSON array.
pub open spec fn tables_json(v: Seq<TableView>) -> Seq<char> {
    "["@ + tables_items(v) + "]"@
}

/// Reads the items of a list of tables at `j`, after those in `acc`, up to and
/// past the closing bracket.
pub open spec fn parse_tables_items(s: Seq<char>, j: int, acc: Seq<TableView>) -> Option<
    (Seq<TableView>, int),
>
    decreases s.len() - j,
{
    match parse_table(s, j) {
        None => None,
        Some((item, k)) => if k <= j {
            None
        } else {
            match after_lit(s, k, ","@) {
                Some(m) => parse_tables_items(s, m, acc.push(item)),
                None => match after_lit(s, k, "]"@) {
                    Some(m) => Some((acc.push(item), m)),
                    None => None,
                },
            }
        },
    }
}

/// Reads a list of tables at `j`.
pub open spec fn parse_tables(s: Seq<char>, j: int) -> Option<(Seq<TableView>, int)> {
    match after_lit(s, j, "["@) {
        None => None,
        Some(a) => match after_lit(s, a, "]"@) {
            Some(b) => Some((Seq::empty(), b)),
            None => parse_tables_items(s, a, Seq::empty()),
        },
    }
}

proof fn lemma_parse_bool(pre: Seq<char>, b: bool, post: Seq<char>)
    ensures
        parse_bool(pre + bool_json(b) + post, pre.len() as int) == Some(
            (b, (pre.len() + bool_json(b).len()) as int),
        ),
{
    reveal(parse_bool);
    reveal_strlit("true");
    reveal_strlit("false");
    let s = pre + bool_json(b) + post;
    lemma_after_lit(pre, bool_json(b), post);
    if !b {
        assert(s[pre.len() as int] == 'f');
        assert(!lit_at(s, pre.len() as int, "true"@)) by {
            if lit_at(s, pre.len() as int, "true"@) {
                assert(s.subrange(pre.len() as int, pre.len() + 4int)[0] == 't');
            }
        }
    }
}

proof fn lemma_parse_column(pre: Seq<char>, c: ColumnView, post: Seq<char>)
    ensures
        parse_column(pre + column_json(c) + post, pre.len() as int) == Some(
            (c, (pre.len() + column_json(c).len()) as int),
        ),
{
    reveal(parse_column);
    reveal(column_json);
    let s = pre + column_json(c) + post;
    let head0 = pre;
    let tail0 = str_json(c.name) + ",\"data_type\":"@ + str_json(c.data_type) + "}"@ + post;
    assert(s =~= head0 + "{\"name\":"@ + tail0);
    lemma_after_lit(head0, "{\"name\":"@, tail0);
    let head1 = pre + "{\"name\":"@;
    let tail1 = ",\"data_type\":"@ + str_json(c.data_type) + "}"@ + post;
    assert(s =~= head1 + str_json(c.name) + tail1);
    lemma_parse_str(head1, c.name, tail1);
    let head2 = pre + "{\"name\":"@ + str_json(c.name);
    let tail2 = str_json(c.data_type) + "}"@ + post;
    assert(s =~= head2 + ",\"data_type\":"@ + tail2);
    lemma_after_lit(head2, ",\"data_type\":"@, tail2);
    let head3 = pre + "{\"name\":"@ + str_json(c.name) + ",\"data_type\":"@;
    let tail3 = "}"@ + post;
    assert(s =~= head3 + str_json(c.data_type) + tail3);
    lemma_parse_str(head3, c.data_type, tail3);
    let head4 = pre + "{\"name\":"@ + str_json(c.name) + ",\"data_type\":"@ + str_json(c.data_type);
    let tail4 = post;
    assert(s =~= head4 + "}"@ + tail4);
    lemma_after_lit(head4, "}"@, tail4);
}

proof fn lemma_parse_foreign_key(pre: Seq<char>, f: ForeignKeyView, post: Seq<char>)
    ensures
        parse_foreign_key(pre + foreign_key_json(f) + post, pre.len() as int) == Some(
            (f, (pre.len() + foreign_key_json(f).len()) as int),
        ),
{
    reveal(parse_foreign_key);
    reveal(foreign_key_json);
    let s = pre + foreign_key_json(f) + post;
    let head0 = pre;
    let tail0 = str_json(f.column) + ",\"referenced_table\":"@ + str_json(f.referenced_table) + "}"@ + post;
    assert(s =~= head0 + "{\"column\":"@ + tail0);
    lemma_after_lit(head0, "{\"column\":"@, tail0);
    let head1 = pre + "{\"column\":"@;
    let tail1 = ",\"referenced_table\":"@ + str_json(f.referenced_table) + "}"@ + post;
    assert(s =~= head1 + str_json(f.column) + tail1);
    lemma_parse_str(head1, f.column, tail1);
    let head2 = pre + "{\"column\":"@ + str_json(f.column);
    let tail2 = str_json(f.referenced_table) + "}"@ + post;
    assert(s =~= head2 + ",\"referenced_table\":"@ + tail2);
    lemma_after_lit(head2, ",\"referenced_table\":"@, tail2);
    let head3 = pre + "{\"column\":"@ + str_json(f.column) + ",\"referenced_table\":"@;
    let tail3 = "}"@ + post;
    assert(s =~= head3 + str_json(f.referenced_table) + tail3);
    lemma_parse_str(head3, f.referenced_table, tail3);
    let head4 = pre + "{\"column\":"@ + str_json(f.column) + ",\"referenced_table\":"@ + str_json(f.referenced_table);
    let tail4 = post;
    assert(s =~= head4 + "}"@ + tail4);
    lemma_after_lit(head4, "}"@, tail4);
}

proof fn assoc(a: Seq<char>, b: Seq<char>, c: Seq<char>)
    ensures
        a + (b + c) == a + b + c,
{
    vstd::seq_lib::lemma_concat_associative(a, b, c);
}

#[verifier::rlimit(100)]
proof fn lemma_parse_table_rest(pre: Seq<char>, t: TableView, post: Seq<char>)
    ensures
        parse_table_rest(
            pre + table_rest_json(t) + post,
            pre.len() as int,
            t.name,
            t.schema,
            t.subject_area,
        ) == Some((t, (pre.len() + table_rest_json(t).len()) as int)),
{
    reveal(table_rest_json);
    reveal(parse_table_rest);
    reveal_strlit(",");
    reveal_strlit("],\"columns\":");
    let s = pre + table_rest_json(t) + post;
    let tail10 = post;
    let tail9 = "}"@ + tail10;
    let tail8 = bool_json(t.visible) + tail9;
    let tail7 = ",\"visible\":"@ + tail8;
    let tail6 = foreign_keys_json(t.foreign_keys) + tail7;
    let tail5 = ",\"foreign_keys\":"@ + tail6;
    let tail4 = columns_json(t.columns) + tail5;
    let tail3 = "],\"columns\":"@ + tail4;
    let tail2 = int_text(t.position.y as int) + tail3;
    let tail1 = ","@ + tail2;
    let tail0 = int_text(t.position.x as int) + tail1;
    let x0 = ",\"position\":["@;
    let x1 = x0 + int_text(t.position.x as int);
    let x2 = x1 + ","@;
    let x3 = x2 + int_text(t.position.y as int);
    let x4 = x3 + "],\"columns\":"@;
    let x5 = x4 + columns_json(t.columns);
    let x6 = x5 + ",\"foreign_keys\":"@;
    let x7 = x6 + foreign_keys_json(t.foreign_keys);
    let x8 = x7 + ",\"visible\":"@;
    let x9 = x8 + bool_json(t.visible);
    let x10 = x9 + "}"@;
    assert(table_rest_json(t) == x10);
    assoc(x9, "}"@, tail10);
    assoc(x8, bool_json(t.visible), tail9);
    assoc(x7, ",\"visible\":"@, tail8);
    assoc(x6, foreign_keys_json(t.foreign_keys), tail7);
    assoc(x5, ",\"foreign_keys\":"@, tail6);
    assoc(x4, columns_json(t.columns), tail5);
    assoc(x3, "],\"columns\":"@, tail4);
    assoc(x2, int_text(t.position.y as int), tail3);
    assoc(x1, ","@, tail2);
    assoc(x0, int_text(t.position.x as int), tail1);
    assoc(pre, x10, post);
    assert(s == pre + (",\"position\":["@ + tail0));
    let head0 = pre;
    assoc(head0, ",\"position\":["@, tail0);
    lemma_after_lit(head0, ",\"position\":["@, tail0);
    let head1 = head0 + ",\"position\":["@;
    assoc(head1, int_text(t.position.x as int), tail1);
    lemma_parse_int(head1, t.position.x, tail1);
    let head2 = head1 + int_text(t.position.x as int);
    assoc(head2, ","@, tail2);
    lemma_after_lit(head2, ","@, tail2);
    let head3 = head2 + ","@;
    assoc(head3, int_text(t.position.y as int), tail3);
    lemma_parse_int(head3, t.position.y, tail3);
    let head4 = head3 + int_text(t.position.y as int);
    assoc(head4, "],\"columns\":"@, tail4);
    lemma_after_lit(head4, "],\"columns\":"@, tail4);
    let head5 = head4 + "],\"columns\":"@;
    assoc(head5, columns_json(t.columns), tail5);
    lemma_parse_columns(head5, t.columns, tail5);
    let head6 = head5 + columns_json(t.columns);
    assoc(head6, ",\"foreign_keys\":"@, tail6);
    lemma_after_lit(head6, ",\"foreign_keys\":"@, tail6);
    let head7 = head6 + ",\"foreign_keys\":"@;
    assoc(head7, foreign_keys_json(t.foreign_keys), tail7);
    lemma_parse_foreign_keys(head7, t.foreign_keys, tail7);
    let head8 = head7 + foreign_keys_json(t.foreign_keys);
    assoc(head8, ",\"visible\":"@, tail8);
    lemma_after_lit(head8, ",\"visible\":"@, tail8);
    let head9 = head8 + ",\"visible\":"@;
    assoc(head9, bool_json(t.visible), tail9);
    lemma_parse_bool(head9, t.visible, tail9);
    let head10 = head9 + bool_json(t.visible);
    assoc(head10, "}"@, tail10);
    lemma_after_lit(head10, "}"@, tail10);
}

proof fn lemma_parse_table(pre: Seq<char>, t: TableView, post: Seq<char>)
    ensures
        parse_table(pre + table_json(t) + post, pre.len() as int) == Some(
            (t, (pre.len() + table_json(t).len()) as int),
        ),
{
    reveal(table_json);
    reveal(table_head_json);
    reveal(parse_table);
    let s = pre + table_head_json(t) + (table_rest_json(t) + post);
    assoc(pre + table_head_json(t), table_rest_json(t), post);
    assoc(pre, table_head_json(t), table_rest_json(t));
    assert(pre + table_json(t) + post == s);
    let tail5 = (table_rest_json(t) + post);
    let tail4 = str_json(t.subject_area) + tail5;
    let tail3 = ",\"subject_area\":"@ + tail4;
    let tail2 = str_json(t.schema) + tail3;
    let tail1 = ",\"schema\":"@ + tail2;
    let tail0 = str_json(t.name) + tail1;
    let x0 = "{\"name\":"@;
    let x1 = x0 + str_json(t.name);
    let x2 = x1 + ",\"schema\":"@;
    let x3 = x2 + str_json(t.schema);
    let x4 = x3 + ",\"subject_area\":"@;
    let x5 = x4 + str_json(t.subject_area);
    assert(table_head_json(t) == x5);
    assoc(x4, str_json(t.subject_area), tail5);
    assoc(x3, ",\"subject_area\":"@, tail4);
    assoc(x2, str_json(t.schema), tail3);
    assoc(x1, ",\"schema\":"@, tail2);
    assoc(x0, str_json(t.name), tail1);
    assoc(pre, x5, (table_rest_json(t) + post));
    assert(s == pre + ("{\"name\":"@ + tail0));
    let head0 = pre;
    assoc(head0, "{\"name\":"@, tail0);
    lemma_after_lit(head0, "{\"name\":"@, tail0);
    let head1 = head0 + "{\"name\":"@;
    assoc(head1, str_json(t.name), tail1);
    lemma_parse_str(head1, t.name, tail1);
    let head2 = head1 + str_json(t.name);
    assoc(head2, ",\"schema\":"@, tail2);
    lemma_after_lit(head2, ",\"schema\":"@, tail2);
    let head3 = head2 + ",\"schema\":"@;
    assoc(head3, str_json(t.schema), tail3);
    lemma_parse_str(head3, t.schema, tail3);
    let head4 = head3 + str_json(t.schema);
    assoc(head4, ",\"subject_area\":"@, tail4);
    lemma_after_lit(head4, ",\"subject_area\":"@, tail4);
    let head5 = head4 + ",\"subject_area\":"@;
    assoc(head5, str_json(t.subject_area), tail5);
    lemma_parse_str(head5, t.subject_area, tail5);
    let head6 = pre + table_head_json(t);
    lemma_parse_table_rest(head6, t, post);
}

proof fn lemma_column_json_starts(v: ColumnView)
    ensures
        column_json(v).len() > 0,
        column_json(v)[0] == '{',
{
    reveal(column_json);
    reveal_strlit("{\"name\":");
    assert(column_json(v)[0] == "{\"name\":"@[0]);
}

#[verifier::rlimit(50)]
proof fn lemma_parse_columns_items(
    pre: Seq<char>,
    v: Seq<ColumnView>,
    post: Seq<char>,
    acc: Seq<ColumnView>,
)
    requires
        v.len() >= 1,
    ensures
        parse_columns_items(pre + columns_items(v) + "]"@ + post, pre.len() as int, acc) == Some(
            (acc + v, (pre.len() + columns_items(v).len() + 1) as int),
        ),
    decreases v.len(),
{
    reveal_strlit(",");
    reveal_strlit("]");
    let s = pre + columns_items(v) + "]"@ + post;
    let j = pre.len() as int;
    lemma_column_json_starts(v[0]);
    let k = j + column_json(v[0]).len();
    if v.len() == 1 {
        assert(columns_items(v) == column_json(v[0]));
        assert(s =~= pre + column_json(v[0]) + ("]"@ + post));
        lemma_parse_column(pre, v[0], "]"@ + post);
        assert(s[k] == ']');
        assert(!lit_at(s, k, ","@)) by {
            if lit_at(s, k, ","@) {
                assert(s.subrange(k, k + 1)[0] == ',');
            }
        }
        lemma_after_lit(pre + column_json(v[0]), "]"@, post);
        assert(acc.push(v[0]) =~= acc + v);
    } else {
        let rest = v.drop_first();
        assert(columns_items(v) == column_json(v[0]) + ","@ + columns_items(rest));
        assert(s =~= pre + column_json(v[0]) + (","@ + columns_items(rest) + "]"@ + post));
        lemma_parse_column(pre, v[0], ","@ + columns_items(rest) + "]"@ + post);
        assert(s =~= (pre + column_json(v[0])) + ","@ + (columns_items(rest) + "]"@ + post));
        lemma_after_lit(pre + column_json(v[0]), ","@, columns_items(rest) + "]"@ + post);
        let pre2 = pre + column_json(v[0]) + ","@;
        assert(s =~= pre2 + columns_items(rest) + "]"@ + post);
        lemma_parse_columns_items(pre2, rest, post, acc.push(v[0]));
        assert(acc.push(v[0]) + rest =~= acc + v);
    }
}

proof fn lemma_parse_columns(pre: Seq<char>, v: Seq<ColumnView>, post: Seq<char>)
    ensures
        parse_columns(pre + columns_json(v) + post, pre.len() as int) == Some(
            (v, (pre.len() + columns_json(v).len()) as int),
        ),
{
    reveal(parse_columns);
    reveal_strlit("[");
    reveal_strlit("]");
    let s = pre + columns_json(v) + post;
    let a = pre.len() + 1int;
    assert(s =~= pre + "["@ + (columns_items(v) + "]"@ + post));
    lemma_after_lit(pre, "["@, columns_items(v) + "]"@ + post);
    if v.len() == 0 {
        assert(columns_items(v) == Seq::<char>::empty());
        assert(s =~= (pre + "["@) + "]"@ + post);
        lemma_after_lit(pre + "["@, "]"@, post);
        assert(v =~= Seq::<ColumnView>::empty());
    } else {
        lemma_column_json_starts(v[0]);
        assert(columns_items(v)[0] == '{');
        assert(s[a] == '{');
        assert(!lit_at(s, a, "]"@)) by {
            if lit_at(s, a, "]"@) {
                assert(s.subrange(a, a + 1)[0] == ']');
            }
        }
        assert(s =~= (pre + "["@) + columns_items(v) + "]"@ + post);
        lemma_parse_columns_items(pre + "["@, v, post, Seq::empty());
        assert(Seq::<ColumnView>::empty() + v =~= v);
    }
}

proof fn lemma_foreign_key_json_starts(v: ForeignKeyView)
    ensures
        foreign_key_json(v).len() > 0,
        foreign_key_json(v)[0] == '{',
{
    reveal(foreign_key_json);
    reveal_strlit("{\"column\":");
    assert(foreign_key_json(v)[0] == "{\"column\":"@[0]);
}

#[verifier::rlimit(50)]
proof fn lemma_parse_foreign_keys_items(
    pre: Seq<char>,
    v: Seq<ForeignKeyView>,
    post: Seq<char>,
    acc: Seq<ForeignKeyView>,
)
    requires
        v.len() >= 1,
    ensures
        parse_foreign_keys_items(pre + foreign_keys_items(v) + "]"@ + post, pre.len() as int, acc) == Some(
            (acc + v, (pre.len() + foreign_keys_items(v).len() + 1) as int),
        ),
    decreases v.len(),
{
    reveal_strlit(",");
    reveal_strlit("]");
    let s = pre + foreign_keys_items(v) + "]"@ + post;
    let j = pre.len() as int;
    lemma_foreign_key_json_starts(v[0]);
    let k = j + foreign_key_json(v[0]).len();
    if v.len() == 1 {
        assert(foreign_keys_items(v) == foreign_key_json(v[0]));
        assert(s =~= pre + foreign_key_json(v[0]) + ("]"@ + post));
        lemma_parse_foreign_key(pre, v[0], "]"@ + post);
        assert(s[k] == ']');
        assert(!lit_at(s, k, ","@)) by {
            if lit_at(s, k, ","@) {
                assert(s.subrange(k, k + 1)[0] == ',');
            }
        }
        lemma_after_lit(pre + foreign_key_json(v[0]), "]"@, post);
        assert(acc.push(v[0]) =~= acc + v);
    } else {
        let rest = v.drop_first();
        assert(foreign_keys_items(v) == foreign_key_json(v[0]) + ","@ + foreign_keys_items(rest));
        assert(s =~= pre + foreign_key_json(v[0]) + (","@ + foreign_keys_items(rest) + "]"@ + post));
        lemma_parse_foreign_key(pre, v[0], ","@ + foreign_keys_items(rest) + "]"@ + post);
        assert(s =~= (pre + foreign_key_json(v[0])) + ","@ + (foreign_keys_items(rest) + "]"@ + post));
        lemma_after_lit(pre + foreign_key_json(v[0]), ","@, foreign_keys_items(rest) + "]"@ + post);
        let pre2 = pre + foreign_key_json(v[0]) + ","@;
        assert(s =~= pre2 + foreign_keys_items(rest) + "]"@ + post);
        lemma_parse_foreign_keys_items(pre2, rest, post, acc.push(v[0]));
        assert(acc.push(v[0]) + rest =~= acc + v);
    }
}

proof fn lemma_parse_foreign_keys(pre: Seq<char>, v: Seq<ForeignKeyView>, post: Seq<char>)
    ensures
        parse_foreign_keys(pre + foreign_keys_json(v) + post, pre.len() as int) == Some(
            (v, (pre.len() + foreign_keys_json(v).len()) as int),
        ),
{
    reveal(parse_foreign_keys);
    reveal_strlit("[");
    reveal_strlit("]");
    let s = pre + foreign_keys_json(v) + post;
    let a = pre.len() + 1int;
    assert(s =~= pre + "["@ + (foreign_keys_items(v) + "]"@ + post));
    lemma_after_lit(pre, "["@, foreign_keys_items(v) + "]"@ + post);
    if v.len() == 0 {
        assert(foreign_keys_items(v) == Seq::<char>::empty());
        assert(s =~= (pre + "["@) + "]"@ + post);
        lemma_after_lit(pre + "["@, "]"@, post);
        assert(v =~= Seq::<ForeignKeyView>::empty());
    } else {
        lemma_foreign_key_json_starts(v[0]);
        assert(foreign_keys_items(v)[0] == '{');
        assert(s[a] == '{');
        assert(!lit_at(s, a, "]"@)) by {
            if lit_at(s, a, "]"@) {
                assert(s.subrange(a, a + 1)[0] == ']');
            }
        }
        assert(s =~= (pre + "["@) + foreign_keys_items(v) + "]"@ + post);
        lemma_parse_foreign_keys_items(pre + "["@, v, post, Seq::empty());
        assert(Seq::<ForeignKeyView>::empty() + v =~= v);
    }
}

proof fn lemma_table_json_starts(v: TableView)
    ensures
        table_json(v).len() > 0,
        table_json(v)[0] == '{',
{
    reveal(table_json);
    reveal(table_head_json);
    reveal_strlit("{\"name\":");
    assert(table_json(v)[0] == "{\"name\":"@[0]);
}

#[verifier::rlimit(50)]
proof fn lemma_parse_tables_items(
    pre: Seq<char>,
    v: Seq<TableView>,
    post: Seq<char>,
    acc: Seq<TableView>,
)
    requires
        v.len() >= 1,
    ensures
        parse_tables_items(pre + tables_items(v) + "]"@ + post, pre.len() as int, acc) == Some(
            (acc + v, (pre.len() + tables_items(v).len() + 1) as int),
        ),
    decreases v.len(),
{
    reveal_strlit(",");
    reveal_strlit("]");
    let s = pre + tables_items(v) + "]"@ + post;
    let j = pre.len() as int;
    lemma_table_json_starts(v[0]);
    let k = j + table_json(v[0]).len();
    if v.len() == 1 {
        assert(tables_items(v) == table_json(v[0]));
        assert(s =~= pre + table_json(v[0]) + ("]"@ + post));
        lemma_parse_table(pre, v[0], "]"@ + post);
        assert(s[k] == ']');
        assert(!lit_at(s, k, ","@)) by {
            if lit_at(s, k, ","@) {
                assert(s.subrange(k, k + 1)[0] == ',');
            }
        }
        lemma_after_lit(pre + table_json(v[0]), "]"@, post);
        assert(acc.push(v[0]) =~= acc + v);
    } else {
        let rest = v.drop_first();
        assert(tables_items(v) == table_json(v[0]) + ","@ + tables_items(rest));
        assert(s =~= pre + table_json(v[0]) + (","@ + tables_items(rest) + "]"@ + post));
        lemma_parse_table(pre, v[0], ","@ + tables_items(rest) + "]"@ + post);
        assert(s =~= (pre + table_json(v[0])) + ","@ + (tables_items(rest) + "]"@ + post));
        lemma_after_lit(pre + table_json(v[0]), ","@, tables_items(rest) + "]"@ + post);
        let pre2 = pre + table_json(v[0]) + ","@;
        assert(s =~= pre2 + tables_items(rest) + "]"@ + post);
        lemma_parse_tables_items(pre2, rest, post, acc.push(v[0]));
        assert(acc.push(v[0]) + rest =~= acc + v);
    }
}

proof fn lemma_parse_tables(pre: Seq<char>, v: Seq<TableView>, post: Seq<char>)
    ensures
        parse_tables(pre + tables_json(v) + post, pre.len() as int) == Some(
            (v, (pre.len() + tables_json(v).len()) as int),
        ),
{
    reveal_strlit("[");
    reveal_strlit("]");
    let s = pre + tables_json(v) + post;
    let a = pre.len() + 1int;
    assert(s =~= pre + "["@ + (tables_items(v) + "]"@ + post));
    lemma_after_lit(pre, "["@, tables_items(v) + "]"@ + post);
    if v.len() == 0 {
        assert(tables_items(v) == Seq::<char>::empty());
        assert(s =~= (pre + "["@) + "]"@ + post);
        lemma_after_lit(pre + "["@, "]"@, post);
        assert(v =~= Seq::<TableView>::empty());
    } else {
        lemma_table_json_starts(v[0]);
        assert(tables_items(v)[0] == '{');
        assert(s[a] == '{');
        assert(!lit_at(s, a, "]"@)) by {
            if lit_at(s, a, "]"@) {
                assert(s.subrange(a, a + 1)[0] == ']');
            }
        }
        assert(s =~= (pre + "["@) + tables_items(v) + "]"@ + post);
        lemma_parse_tables_items(pre + "["@, v, post, Seq::empty());
        assert(Seq::<TableView>::empty() + v =~= v);
    }
}

/// Encoding a model and reading the text back gives the model again, in every
/// persisted field.
pub proof fn lemma_json_round_trip(ts: Seq<TableView>)
    ensures
        parse_model(model_json(ts)) == Some(ts),
{
    reveal_strlit("}");
    let s = model_json(ts);
    let k = "{\"tables\":"@;
    assert(s =~= Seq::<char>::empty() + k + (tables_json(ts) + "}"@));
    lemma_after_lit(Seq::<char>::empty(), k, tables_json(ts) + "}"@);
    assert(s =~= k + tables_json(ts) + "}"@);
    lemma_parse_tables(k, ts, "}"@);
    assert(s =~= (k + tables_json(ts)) + "}"@ + Seq::<char>::empty());
    lemma_after_lit(k + tables_json(ts), "}"@, Seq::<char>::empty());
}

fn push_lit(out: &mut String, lit: &str)
    ensures
        final(out)@ == old(out)@ + lit@,
{
    out.append(lit);
}

fn push_bool_json(out: &mut String, b: bool)
    ensures
        final(out)@ == old(out)@ + bool_json(b),
{
    if b {
        push_lit(out, "true");
    } else {
        push_lit(out, "false");
    }
}

fn push_column_json(out: &mut String, c: &Column)
    ensures
        final(out)@ == old(out)@ + column_json(c@),
{
    reveal(column_json);
    push_lit(out, "{\"name\":");
    push_str_json(out, c.name.as_str());
    push_lit(out, ",\"data_type\":");
    push_str_json(out, c.data_type.as_str());
    push_lit(out, "}");
    assert(final(out)@ =~= old(out)@ + column_json(c@));
}

fn push_foreign_key_json(out: &mut String, f: &ForeignKey)
    ensures
        final(out)@ == old(out)@ + foreign_key_json(f@),
{
    reveal(foreign_key_json);
    push_lit(out, "{\"column\":");
    push_str_json(out, f.column.as_str());
    push_lit(out, ",\"referenced_table\":");
    push_str_json(out, f.referenced_table.as_str());
    push_lit(out, "}");
    assert(final(out)@ =~= old(out)@ + foreign_key_json(f@));
}

fn push_table_json(out: &mut String, t: &Table)
    ensures
        final(out)@ == old(out)@ + table_json(t@),
{
    reveal(table_json);
    reveal(table_head_json);
    reveal(table_rest_json);
    let ghost start = out@;
    push_lit(out, "{\"name\":");
    push_str_json(out, t.name.as_str());
    push_lit(out, ",\"schema\":");
    push_str_json(out, t.schema.as_str());
    push_lit(out, ",\"subject_area\":");
    push_str_json(out, t.subject_area.as_str());
    assert(out@ =~= start + table_head_json(t@));
    let ghost middle = out@;
    push_lit(out, ",\"position\":[");
    push_int(out, t.position.0.x);
    push_lit(out, ",");
    push_int(out, t.position.0.y);
    push_lit(out, "],\"columns\":");
    push_columns_json(out, &t.columns);
    push_lit(out, ",\"foreign_keys\":");
    push_foreign_keys_json(out, &t.foreign_keys);
    push_lit(out, ",\"visible\":");
    push_bool_json(out, t.visible);
    push_lit(out, "}");
    assert(out@ =~= middle + table_rest_json(t@));
    assert(out@ =~= start + table_json(t@));
}

/// Reads a boolean at `j`.
fn read_bool(s: &Vec<char>, j: usize) -> (r: Option<(bool, usize)>)
    ensures
        match r {
            Some((b, k)) => parse_bool(s@, j as int) == Some((b, k as int)),
            None => parse_bool(s@, j as int) is None,
        },
{
    reveal(parse_bool);
    match expect(s, j, "true") {
        Some(k) => Some((true, k)),
        None => match expect(s, j, "false") {
            Some(k) => Some((false, k)),
            None => None,
        },
    }
}

/// Reads a column object at `j`.
fn read_column(s: &Vec<char>, j: usize) -> (r: Option<(Column, usize)>)
    ensures
        match r {
            Some((c, k)) => parse_column(s@, j as int) == Some((c@, k as int)),
            None => parse_column(s@, j as int) is None,
        },
{
    reveal(parse_column);
    let a = match expect(s, j, "{\"name\":") {
        Some(a) => a,
        None => return None,
    };
    let (name, b) = match read_str(s, a) {
        Some(r) => r,
        None => return None,
    };
    let c = match expect(s, b, ",\"data_type\":") {
        Some(c) => c,
        None => return None,
    };
    let (data_type, d) = match read_str(s, c) {
        Some(r) => r,
        None => return None,
    };
    match expect(s, d, "}") {
        Some(e) => Some((Column { name, data_type }, e)),
        None => None,
    }
}

/// Reads a foreign key object at `j`.
fn read_foreign_key(s: &Vec<char>, j: usize) -> (r: Option<(ForeignKey, usize)>)
    ensures
        match r {
            Some((f, k)) => parse_foreign_key(s@, j as int) == Some((f@, k as int)),
            None => parse_foreign_key(s@, j as int) is None,
        },
{
    reveal(parse_foreign_key);
    let a = match expect(s, j, "{\"column\":") {
        Some(a) => a,
        None => return None,
    };
    let (column, b) = match read_str(s, a) {
        Some(r) => r,
        None => return None,
    };
    let c = match expect(s, b, ",\"referenced_table\":") {
        Some(c) => c,
        None => return None,
    };
    let (referenced_table, d) = match read_str(s, c) {
        Some(r) => r,
        None => return None,
    };
    match expect(s, d, "}") {
        Some(e) => Some((ForeignKey { column, referenced_table }, e)),
        None => None,
    }
}

/// Reads a table object at `j`.
fn read_table(s: &Vec<char>, j: usize) -> (r: Option<(Table, usize)>)
    ensures
        match r {
            Some((t, k)) => parse_table(s@, j as int) == Some((t@, k as int)),
            None => parse_table(s@, j as int) is None,
        },
{
    reveal(parse_table);
    reveal(parse_table_rest);
    let a = match expect(s, j, "{\"name\":") {
        Some(a) => a,
        None => return None,
    };
    let (name, b) = match read_str(s, a) {
        Some(r) => r,
        None => return None,
    };
    let c = match expect(s, b, ",\"schema\":") {
        Some(c) => c,
        None => return None,
    };
    let (schema, d) = match read_str(s, c) {
        Some(r) => r,
        None => return None,
    };
    let e = match expect(s, d, ",\"subject_area\":") {
        Some(e) => e,
        None => return None,
    };
    let (subject_area, f) = match read_str(s, e) {
        Some(r) => r,
        None => return None,
    };
    let a = match expect(s, f, ",\"position\":[") {
        Some(a) => a,
        None => return None,
    };
    let (x, b) = match read_int(s, a) {
        Some(r) => r,
        None => return None,
    };
    let c = match expect(s, b, ",") {
        Some(c) => c,
        None => return None,
    };
    let (y, d) = match read_int(s, c) {
        Some(r) => r,
        None => return None,
    };
    let e = match expect(s, d, "],\"columns\":") {
        Some(e) => e,
        None => return None,
    };
    let (columns, f) = match read_columns(s, e) {
        Some(r) => r,
        None => return None,
    };
    let g = match expect(s, f, ",\"foreign_keys\":") {
        Some(g) => g,
        None => return None,
    };
    let (foreign_keys, h) = match read_foreign_keys(s, g) {
        Some(r) => r,
        None => return None,
    };
    let k = match expect(s, h, ",\"visible\":") {
        Some(k) => k,
        None => return None,
    };
    let (visible, m) = match read_bool(s, k) {
        Some(r) => r,
        None => return None,
    };
    match expect(s, m, "}") {
        Some(n) => Some(
            (
                Table {
                    name,
                    schema,
                    subject_area,
                    position: TablePoint(Point { x, y }),
                    columns,
                    foreign_keys,
                    visible,
                },
                n,
            ),
        ),
        None => None,
    }
}

fn push_columns_items_from(out: &mut String, v: &Vec<Column>, i: usize)
    requires
        i < v.len(),
    ensures
        final(out)@ == old(out)@ + columns_items(columns_view(v@).subrange(i as int, v@.len() as int)),
    decreases v.len() - i,
{
    let ghost w = columns_view(v@).subrange(i as int, v@.len() as int);
    assert(w[0] == v@[i as int]@);
    push_column_json(out, &v[i]);
    if i + 1 < v.len() {
        push_lit(out, ",");
        push_columns_items_from(out, v, i + 1);
        assert(w.drop_first() =~= columns_view(v@).subrange(i + 1, v@.len() as int));
        assert(out@ =~= old(out)@ + columns_items(w));
    }
}

fn push_columns_json(out: &mut String, v: &Vec<Column>)
    ensures
        final(out)@ == old(out)@ + columns_json(columns_view(v@)),
{
    push_lit(out, "[");
    if v.len() > 0 {
        push_columns_items_from(out, v, 0);
        assert(columns_view(v@).subrange(0, v@.len() as int) =~= columns_view(v@));
    } else {
        assert(columns_view(v@) =~= Seq::<ColumnView>::empty());
    }
    push_lit(out, "]");
    assert(final(out)@ =~= old(out)@ + columns_json(columns_view(v@)));
}

/// Reads a list of columns at `j`.
fn read_columns(s: &Vec<char>, j: usize) -> (r: Option<(Vec<Column>, usize)>)
    ensures
        match r {
            Some((v, k)) => parse_columns(s@, j as int) == Some((columns_view(v@), k as int)),
            None => parse_columns(s@, j as int) is None,
        },
{
    reveal(parse_columns);
    let a = match expect(s, j, "[") {
        Some(a) => a,
        None => return None,
    };
    match expect(s, a, "]") {
        Some(b) => {
            let empty: Vec<Column> = Vec::new();
            assert(columns_view(empty@) =~= Seq::<ColumnView>::empty());
            return Some((empty, b));
        },
        None => {},
    }
    let mut acc: Vec<Column> = Vec::new();
    let mut pos: usize = a;
    assert(columns_view(acc@) =~= Seq::<ColumnView>::empty());
    loop
        invariant
            pos <= s.len(),
            parse_columns(s@, j as int) == parse_columns_items(s@, pos as int, columns_view(acc@)),
        decreases s.len() - pos,
    {
        let (item, k) = match read_column(s, pos) {
            Some(r) => r,
            None => return None,
        };
        if k <= pos {
            return None;
        }
        let ghost before = columns_view(acc@);
        let ghost item_view = item@;
        acc.push(item);
        assert(columns_view(acc@) =~= before.push(item_view));
        match expect(s, k, ",") {
            Some(m) => {
                pos = m;
            },
            None => match expect(s, k, "]") {
                Some(m) => {
                    return Some((acc, m));
                },
                None => {
                    return None;
                },
            },
        }
    }
}

fn push_foreign_keys_items_from(out: &mut String, v: &Vec<ForeignKey>, i: usize)
    requires
        i < v.len(),
    ensures
        final(out)@ == old(out)@ + foreign_keys_items(foreign_keys_view(v@).subrange(i as int, v@.len() as int)),
    decreases v.len() - i,
{
    let ghost w = foreign_keys_view(v@).subrange(i as int, v@.len() as int);
    assert(w[0] == v@[i as int]@);
    push_foreign_key_json(out, &v[i]);
    if i + 1 < v.len() {
        push_lit(out, ",");
        push_foreign_keys_items_from(out, v, i + 1);
        assert(w.drop_first() =~= foreign_keys_view(v@).subrange(i + 1, v@.len() as int));
        assert(out@ =~= old(out)@ + foreign_keys_items(w));
    }
}

fn push_foreign_keys_json(out: &mut String, v: &Vec<ForeignKey>)
    ensures
        final(out)@ == old(out)@ + foreign_keys_json(foreign_keys_view(v@)),
{
    push_lit(out, "[");
    if v.len() > 0 {
        push_foreign_keys_items_from(out, v, 0);
        assert(foreign_keys_view(v@).subrange(0, v@.len() as int) =~= foreign_keys_view(v@));
    } else {
        assert(foreign_keys_view(v@) =~= Seq::<ForeignKeyView>::empty());
    }
    push_lit(out, "]");
    assert(final(out)@ =~= old(out)@ + foreign_keys_json(foreign_keys_view(v@)));
}

/// Reads a list of foreign_keys at `j`.
fn read_foreign_keys(s: &Vec<char>, j: usize) -> (r: Option<(Vec<ForeignKey>, usize)>)
    ensures
        match r {
            Some((v, k)) => parse_foreign_keys(s@, j as int) == Some((foreign_keys_view(v@), k as int)),
            None => parse_foreign_keys(s@, j as int) is None,
        },
{
    reveal(parse_foreign_keys);
    let a = match expect(s, j, "[") {
        Some(a) => a,
        None => return None,
    };
    match expect(s, a, "]") {
        Some(b) => {
            let empty: Vec<ForeignKey> = Vec::new();
            assert(foreign_keys_view(empty@) =~= Seq::<ForeignKeyView>::empty());
            return Some((empty, b));
        },
        None => {},
    }
    let mut acc: Vec<ForeignKey> = Vec::new();
    let mut pos: usize = a;
    assert(foreign_keys_view(acc@) =~= Seq::<ForeignKeyView>::empty());
    loop
        invariant
            pos <= s.len(),
            parse_foreign_keys(s@, j as int) == parse_foreign_keys_items(s@, pos as int, foreign_keys_view(acc@)),
        decreases s.len() - pos,
    {
        let (item, k) = match read_foreign_key(s, pos) {
            Some(r) => r,
            None => return None,
        };
        if k <= pos {
            return None;
        }
        let ghost before = foreign_keys_view(acc@);
        let ghost item_view = item@;
        acc.push(item);
        assert(foreign_keys_view(acc@) =~= before.push(item_view));
        match expect(s, k, ",") {
            Some(m) => {
                pos = m;
            },
            None => match expect(s, k, "]") {
                Some(m) => {
                    return Some((acc, m));
                },
                None => {
                    return None;
                },
            },
        }
    }
}

fn push_tables_items_from(out: &mut String, v: &Vec<Table>, i: usize)
    requires
        i < v.len(),
    ensures
        final(out)@ == old(out)@ + tables_items(tables_view(v@).subrange(i as int, v@.len() as int)),
    decreases v.len() - i,
{
    let ghost w = tables_view(v@).subrange(i as int, v@.len() as int);
    assert(w[0] == v@[i as int]@);
    push_table_json(out, &v[i]);
    if i + 1 < v.len() {
        push_lit(out, ",");
        push_tables_items_from(out, v, i + 1);
        assert(w.drop_first() =~= tables_view(v@).subrange(i + 1, v@.len() as int));
        assert(out@ =~= old(out)@ + tables_items(w));
    }
}

fn push_tables_json(out: &mut String, v: &Vec<Table>)
    ensures
        final(out)@ == old(out)@ + tables_json(tables_view(v@)),
{
    push_lit(out, "[");
    if v.len() > 0 {
        push_tables_items_from(out, v, 0);
        assert(tables_view(v@).subrange(0, v@.len() as int) =~= tables_view(v@));
    } else {
        assert(tables_view(v@) =~= Seq::<TableView>::empty());
    }
    push_lit(out, "]");
    assert(final(out)@ =~= old(out)@ + tables_json(tables_view(v@)));
}

/// Reads a list of tables at `j`.
fn read_tables(s: &Vec<char>, j: usize) -> (r: Option<(Vec<Table>, usize)>)
    ensures
        match r {
            Some((v, k)) => parse_tables(s@, j as int) == Some((tables_view(v@), k as int)),
            None => parse_tables(s@, j as int) is None,
        },
{
    let a = match expect(s, j, "[") {
        Some(a) => a,
        None => return None,
    };
    match expect(s, a, "]") {
        Some(b) => {
            let empty: Vec<Table> = Vec::new();
            assert(tables_view(empty@) =~= Seq::<TableView>::empty());
            return Some((empty, b));
        },
        None => {},
    }
    let mut acc: Vec<Table> = Vec::new();
    let mut pos: usize = a;
    assert(tables_view(acc@) =~= Seq::<TableView>::empty());
    loop
        invariant
            pos <= s.len(),
            parse_tables(s@, j as int) == parse_tables_items(s@, pos as int, tables_view(acc@)),
        decreases s.len() - pos,
    {
        let (item, k) = match read_table(s, pos) {
            Some(r) => r,
            None => return None,
        };
        if k <= pos {
            return None;
        }
        let ghost before = tables_view(acc@);
        let ghost item_view = item@;
        acc.push(item);
        assert(tables_view(acc@) =~= before.push(item_view));
        match expect(s, k, ",") {
            Some(m) => {
                pos = m;
            },
            None => match expect(s, k, "]") {
                Some(m) => {
                    return Some((acc, m));
                },
                None => {
                    return None;
                },
            },
        }
    }
}

impl Model {
    /// The model as JSON text: an object with the list of tables, each with every
    /// persisted field.
    pub fn to_json(&self) -> (r: String)
        ensures
            r@ == model_json(self@),
    {
        let mut out = String::new();
        push_lit(&mut out, "{\"tables\":");
        push_tables_json(&mut out, &self.tables);
        push_lit(&mut out, "}");
        assert(out@ =~= model_json(self@));
        out
    }

    /// Reads a model from the text that `to_json` writes; any other text is an
    /// error, with a message.
    pub fn from_json(text: &str) -> (r: Result<Model, String>)
        ensures
            match r {
                Ok(m) => parse_model(text@) == Some(m@),
                Err(_) => parse_model(text@) is None,
            },
    {
        let s = crate::text::chars_of(text);
        let a = match expect(&s, 0, "{\"tables\":") {
            Some(a) => a,
            None => return Err(String::from_str("the text is not a model: it must open with a table list")),
        };
        let (tables, b) = match read_tables(&s, a) {
            Some(r) => r,
            None => return Err(String::from_str("the text is not a model: its table list is malformed")),
        };
        match expect(&s, b, "}") {
            Some(c) => if c == s.len() {
                Ok(Model { tables })
            } else {
                Err(String::from_str("the text is not a model: text follows its end"))
            },
            None => Err(String::from_str("the text is not a model: it is not closed")),
        }
    }
}

proof fn lemma_digit(d: int)
    requires
        0 <= d < 10,
    ensures
        is_digit(digit_spec(d)),
        digit_value(digit_spec(d)) == d,
{
}

} // verus!
