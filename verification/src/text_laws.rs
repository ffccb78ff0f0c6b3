//! What the functions on texts promise.

use crate::state::pair_texts;
use crate::text::{
    all_digits, decimal, digit_char, digits_value, is_digit_char, is_white_space_char, join, lines,
    padded, signed_decimal, signed_value, strip_cr, text_ends_with, text_less, text_starts_with, texts,
    trim, trim_end, trim_start, unsigned_value,
};
use vstd::prelude::*;

verus! {

/// Only white space is cut off at the end, and all of it.
pub proof fn law_trim_end_cuts_white_space(s: Seq<char>)
    ensures
        trim_end(s).len() <= s.len(),
        trim_end(s) == s.take(trim_end(s).len() as int),
        forall|i: int| trim_end(s).len() <= i < s.len() ==> is_white_space_char(#[trigger] s[i]),
        trim_end(s).len() > 0 ==> !is_white_space_char(trim_end(s).last()),
    decreases s.len(),
{
    if s.len() > 0 && is_white_space_char(s.last()) {
        let before = s.drop_last();
        law_trim_end_cuts_white_space(before);
        let kept = trim_end(before);
        assert(before.take(kept.len() as int) =~= s.take(kept.len() as int));
        assert forall|i: int| kept.len() <= i < s.len() implies is_white_space_char(
            #[trigger] s[i],
        ) by {
            if i < before.len() {
                assert(before[i] == s[i]);
            }
        }
    } else {
        assert(s.take(s.len() as int) =~= s);
    }
}

/// Only white space is cut off at the beginning, and all of it.
pub proof fn law_trim_start_cuts_white_space(s: Seq<char>)
    ensures
        trim_start(s).len() <= s.len(),
        trim_start(s) == s.skip(s.len() - trim_start(s).len()),
        forall|i: int|
            0 <= i < s.len() - trim_start(s).len() ==> is_white_space_char(#[trigger] s[i]),
        trim_start(s).len() > 0 ==> !is_white_space_char(trim_start(s)[0]),
    decreases s.len(),
{
    if s.len() > 0 && is_white_space_char(s[0]) {
        let rest = s.skip(1);
        law_trim_start_cuts_white_space(rest);
        let kept = trim_start(rest);
        assert(rest.skip(rest.len() - kept.len()) =~= s.skip(s.len() - kept.len()));
        assert forall|i: int| 0 <= i < s.len() - kept.len() implies is_white_space_char(
            #[trigger] s[i],
        ) by {
            if i > 0 {
                assert(rest[i - 1] == s[i]);
            }
        }
    } else {
        assert(s.skip(0) =~= s);
    }
}

/// A text that neither begins nor ends with white space is what is left of it
/// when white space is put around it.
pub proof fn law_trim_undoes_padding(before: Seq<char>, s: Seq<char>, after: Seq<char>)
    requires
        forall|i: int| 0 <= i < before.len() ==> is_white_space_char(#[trigger] before[i]),
        forall|i: int| 0 <= i < after.len() ==> is_white_space_char(#[trigger] after[i]),
        s.len() > 0 ==> !is_white_space_char(s[0]) && !is_white_space_char(s.last()),
    ensures
        trim(before + s + after) == s,
{
    let all = before + s + after;
    law_trim_start_cuts_white_space(all);
    let start = trim_start(all);
    let cut = all.len() - start.len();
    if s.len() > 0 {
        assert(all[before.len() as int] == s[0]);
        if cut > before.len() {
            assert(is_white_space_char(all[before.len() as int]));
        }
        if cut < before.len() {
            assert(start[0] == all[cut]);
            assert(all[cut] == before[cut]);
        }
        assert(start =~= s + after);
    } else {
        if start.len() > 0 {
            assert(start[0] == all[cut]);
            if cut < before.len() {
                assert(all[cut] == before[cut]);
            } else {
                assert(all[cut] == after[cut - before.len()]);
            }
        }
    }
    law_trim_end_cuts_white_space(start);
    let kept = trim_end(start);
    if s.len() > 0 {
        if kept.len() > s.len() {
            assert(kept.last() == start[kept.len() - 1]);
            assert(start[kept.len() - 1] == after[kept.len() - 1 - s.len()]);
        }
        if kept.len() < s.len() {
            assert(start[s.len() - 1] == s.last());
            assert(is_white_space_char(start[s.len() - 1]));
        }
    }
    assert(kept =~= s);
}

/// A text begins with another one if some text put behind that one gives it,
/// and only then; and likewise at the end.
pub proof fn law_beginnings_and_ends(s: Seq<char>, part: Seq<char>, more: Seq<char>)
    ensures
        text_starts_with(part + more, part),
        text_ends_with(more + part, part),
        text_starts_with(s, part) ==> s == part + s.skip(part.len() as int),
        text_ends_with(s, part) ==> s == s.take(s.len() - part.len()) + part,
{
    assert((part + more).take(part.len() as int) =~= part);
    assert((more + part).skip(more.len() as int) =~= part);
    if text_starts_with(s, part) {
        assert(s =~= s.take(part.len() as int) + s.skip(part.len() as int));
    }
    if text_ends_with(s, part) {
        assert(s =~= s.take(s.len() - part.len()) + s.skip(s.len() - part.len()));
    }
}

/// A padded number reads as the number, and has the width where it fits.
pub proof fn law_padding_keeps_the_number(n: nat, width: nat)
    ensures
        all_digits(padded(n, width)),
        digits_value(padded(n, width)) == n,
        padded(n, width).len() >= width,
        padded(n, width).len() >= 1,
        padded(n, width).len() > width && width >= 1 ==> padded(n, width) == decimal(n),
    decreases width,
{
    if width <= 1 {
        crate::frame_laws::law_decimal_reads_back(n);
    } else {
        law_padding_keeps_the_number(n / 10, (width - 1) as nat);
        let head = padded(n / 10, (width - 1) as nat);
        let d = digit_char(n % 10);
        let all = padded(n, width);
        assert(all == head.push(d));
        assert(is_digit_char(d));
        assert(all.drop_last() =~= head);
        assert(all.last() == d);
        assert forall|i: int| 0 <= i < all.len() implies is_digit_char(#[trigger] all[i]) by {
            if i < head.len() {
                assert(all[i] == head[i]);
            }
        }
        if head.len() > width - 1 {
            assert(head == decimal(n / 10));
            crate::frame_laws::law_decimal_reads_back(n / 10);
            if n < 10 {
                assert(decimal(0).len() == 1);
            }
        }
    }
}

/// The parts of a joined text stand in it in order: what is joined with one
/// more part is what was joined before, the separator, and the part.
pub proof fn law_joining_appends(parts: Seq<Seq<char>>, part: Seq<char>, sep: Seq<char>)
    ensures
        join(Seq::empty(), sep) == Seq::<char>::empty(),
        join(seq![part], sep) == part,
        parts.len() > 0 ==> join(parts.push(part), sep) == join(parts, sep) + sep + part,
{
    if parts.len() > 0 {
        assert(parts.push(part).drop_last() =~= parts);
    }
}

/// Two texts of which each is something, a comma, and something without commas.
proof fn lemma_last_comma(x: Seq<char>, p: Seq<char>, y: Seq<char>, q: Seq<char>)
    requires
        forall|i: int| 0 <= i < p.len() ==> p[i] != ',',
        forall|i: int| 0 <= i < q.len() ==> q[i] != ',',
        x + seq![','] + p == y + seq![','] + q,
    ensures
        x == y,
        p == q,
{
    let s = x + seq![','] + p;
    let t = y + seq![','] + q;
    assert(s == t);
    assert(s.len() == x.len() + 1 + p.len());
    assert(t.len() == y.len() + 1 + q.len());
    assert(s[x.len() as int] == ',');
    assert(t[y.len() as int] == ',');
    if x.len() < y.len() {
        assert(s[y.len() as int] == p[y.len() - x.len() - 1]);
    } else if y.len() < x.len() {
        assert(t[x.len() as int] == q[x.len() - y.len() - 1]);
    }
    assert(x =~= s.take(x.len() as int));
    assert(y =~= t.take(y.len() as int));
    assert(p =~= s.skip(x.len() as int + 1));
    assert(q =~= t.skip(y.len() as int + 1));
}

/// Are these ids: not empty, and without commas?
pub open spec fn are_ids(ids: Seq<Seq<char>>) -> bool {
    forall|i: int|
        0 <= i < ids.len() ==> (#[trigger] ids[i]).len() > 0 && !ids[i].contains(',')
}

/// Ids joined with commas tell which ids they are, and in which order.
pub proof fn law_joined_ids_tell_the_ids(a: Seq<Seq<char>>, b: Seq<Seq<char>>)
    requires
        are_ids(a),
        are_ids(b),
        join(a, ","@) == join(b, ","@),
    ensures
        a == b,
    decreases a.len(),
{
    reveal_strlit(",");
    assert(","@ =~= seq![',']);
    lemma_join_shape(a);
    lemma_join_shape(b);
    if a.len() <= 1 || b.len() <= 1 {
        if a.len() == 1 {
            assert(!a[0].contains(','));
        }
        if b.len() == 1 {
            assert(!b[0].contains(','));
        }
        assert(a =~= b);
    } else {
        let x = join(a.drop_last(), ","@);
        let y = join(b.drop_last(), ","@);
        let p = a.last();
        let q = b.last();
        assert(a[a.len() - 1] == p && b[b.len() - 1] == q);
        assert forall|i: int| 0 <= i < p.len() implies p[i] != ',' by {
            if p[i] == ',' {
                assert(p.contains(','));
            }
        }
        assert forall|i: int| 0 <= i < q.len() implies q[i] != ',' by {
            if q[i] == ',' {
                assert(q.contains(','));
            }
        }
        lemma_last_comma(x, p, y, q);
        assert(are_ids(a.drop_last())) by {
            assert forall|i: int| 0 <= i < a.drop_last().len() implies (
            #[trigger] a.drop_last()[i]).len() > 0 && !a.drop_last()[i].contains(',') by {
                assert(a.drop_last()[i] == a[i]);
            }
        }
        assert(are_ids(b.drop_last())) by {
            assert forall|i: int| 0 <= i < b.drop_last().len() implies (
            #[trigger] b.drop_last()[i]).len() > 0 && !b.drop_last()[i].contains(',') by {
                assert(b.drop_last()[i] == b[i]);
            }
        }
        law_joined_ids_tell_the_ids(a.drop_last(), b.drop_last());
        assert(a =~= a.drop_last().push(p));
        assert(b =~= b.drop_last().push(q));
    }
}

proof fn lemma_join_shape(a: Seq<Seq<char>>)
    requires
        are_ids(a),
    ensures
        a.len() == 0 ==> join(a, ","@).len() == 0,
        a.len() == 1 ==> join(a, ","@) == a[0] && a[0].len() > 0,
        a.len() >= 2 ==> join(a, ","@).contains(','),
{
    reveal_strlit(",");
    if a.len() >= 2 {
        let x = join(a.drop_last(), ","@);
        let s = join(a, ","@);
        assert(s == x + ","@ + a.last());
        assert(s[x.len() as int] == ',');
    } else if a.len() == 1 {
        assert(a[0].len() > 0);
    }
}

/// A line and a line feed before a text are one more line at its beginning,
/// without the carriage return that may stand before the line feed. Texts
/// without a line feed are one line, and an empty text is none.
pub proof fn law_lines_are_cut_at_line_feeds(line: Seq<char>, rest: Seq<char>)
    requires
        forall|i: int| 0 <= i < line.len() ==> line[i] != '\n',
    ensures
        lines(line + seq!['\n'] + rest) == seq![
            if line.len() > 0 && line.last() == '\r' {
                line.drop_last()
            } else {
                line
            },
        ] + lines(rest),
        line.len() > 0 ==> lines(line) == seq![line],
        lines(Seq::empty()) == Seq::<Seq<char>>::empty(),
{
    let all = line + seq!['\n'] + rest;
    lemma_first(all, '\n', 0, line.len() as int);
    lemma_first(line, '\n', 0, line.len() as int);
    assert(all.take(line.len() as int) =~= line);
    assert(all.skip(line.len() as int + 1) =~= rest);
    assert(strip_cr(line) == if line.len() > 0 && line.last() == '\r' {
        line.drop_last()
    } else {
        line
    });
}

proof fn lemma_first(s: Seq<char>, c: char, from: int, k: int)
    requires
        0 <= from <= k <= s.len(),
        forall|i: int| from <= i < k ==> s[i] != c,
        k < s.len() ==> s[k] == c,
    ensures
        crate::text::first_at(s, c, from) == k,
    decreases k - from,
{
    if from < k {
        lemma_first(s, c, from + 1, k);
    }
}

// ---------------------------------------------------------------------------
// numbers

/// A digit behind some digits is worth itself, and those ten times as much.
pub proof fn law_each_digit_counts(s: Seq<char>, c: char)
    requires
        '0' <= c <= '9',
    ensures
        digits_value(Seq::empty()) == 0,
        digits_value(s.push(c)) == 10 * digits_value(s) + (c as int - '0' as int),
{
    assert(s.push(c).drop_last() =~= s);
}

/// A number is written without zeros before it, and a negative one with a minus
/// sign before it.
pub proof fn law_numbers_are_written_without_leading_zeros(n: nat, m: int)
    ensures
        decimal(0) == seq!['0'],
        n > 0 ==> decimal(n)[0] != '0',
        m >= 0 ==> signed_decimal(m) == decimal(m as nat),
        m < 0 ==> signed_decimal(m) == seq!['-'] + decimal((-m) as nat),
    decreases n,
{
    reveal_strlit("-");
    assert("-"@ =~= seq!['-']);
    assert(decimal(0) =~= seq!['0']);
    if n >= 10 {
        law_numbers_are_written_without_leading_zeros(n / 10, m);
        crate::frame_laws::law_decimal_reads_back(n / 10);
        assert(decimal(n)[0] == decimal(n / 10)[0]);
    }
}

/// Digits are read as a number, also behind a plus sign, and in a signed number
/// behind a minus sign; a number that is out of range is not read.
pub proof fn law_digits_are_read_as_a_number(s: Seq<char>, max: nat)
    requires
        s.len() > 0,
        forall|i: int| 0 <= i < s.len() ==> '0' <= #[trigger] s[i] <= '9',
    ensures
        unsigned_value(s, max) == if digits_value(s) <= max {
            Some(digits_value(s))
        } else {
            None
        },
        unsigned_value(seq!['+'] + s, max) == unsigned_value(s, max),
        signed_value(s) == if digits_value(s) <= i32::MAX {
            Some(digits_value(s) as int)
        } else {
            None
        },
        signed_value(seq!['+'] + s) == signed_value(s),
        signed_value(seq!['-'] + s) == if -digits_value(s) >= i32::MIN {
            Some(-digits_value(s))
        } else {
            None
        },
{
    assert(all_digits(s));
    assert('0' <= s[0]);
    assert((seq!['+'] + s).skip(1) =~= s);
    assert((seq!['-'] + s).skip(1) =~= s);
}

/// A text with anything but digits behind an optional sign is no number, and
/// neither is one without digits.
pub proof fn law_other_texts_are_no_numbers(s: Seq<char>, i: int, max: nat)
    requires
        0 <= i < s.len(),
        !('0' <= s[i] <= '9'),
    ensures
        i > 0 || (s[0] != '+' && s[0] != '-') ==> signed_value(s) is None && unsigned_value(
            s,
            max,
        ) is None,
        s[0] == '-' ==> unsigned_value(s, max) is None,
        s.len() == 1 ==> signed_value(s) is None && unsigned_value(s, max) is None,
        signed_value(Seq::empty()) is None,
        unsigned_value(Seq::empty(), max) is None,
{
    assert(!is_digit_char(s[i]));
    if i > 0 {
        assert(s.skip(1)[i - 1] == s[i]);
        assert(!is_digit_char(s.skip(1)[i - 1]));
    }
    if s[0] == '-' {
        assert(!is_digit_char(s[0]));
    }
}

// ---------------------------------------------------------------------------
// order and lists

/// Texts are ordered by the first character in which they differ, and a text is
/// before all that begin with it.
pub proof fn law_texts_are_ordered_by_their_first_difference(
    common: Seq<char>,
    x: char,
    a: Seq<char>,
    y: char,
    b: Seq<char>,
)
    requires
        x < y,
    ensures
        text_less(common + seq![x] + a, common + seq![y] + b),
        !text_less(common + seq![y] + b, common + seq![x] + a),
        text_less(common, common + seq![x] + a),
        !text_less(common + seq![x] + a, common),
        !text_less(common, common),
    decreases common.len(),
{
    let s = common + seq![x] + a;
    let t = common + seq![y] + b;
    if common.len() > 0 {
        let rest = common.skip(1);
        law_texts_are_ordered_by_their_first_difference(rest, x, a, y, b);
        assert(s.skip(1) =~= rest + seq![x] + a);
        assert(t.skip(1) =~= rest + seq![y] + b);
        assert(s[0] == common[0] && t[0] == common[0]);
    } else {
        assert(s[0] == x && t[0] == y);
    }
}

/// The texts of a list are those of its strings, place by place, and those of a
/// list of pairs are the pairs of theirs.
pub proof fn law_texts_are_those_of_the_strings(list: Seq<String>, pairs: Seq<(String, String)>)
    ensures
        texts(list).len() == list.len(),
        forall|i: int| 0 <= i < list.len() ==> #[trigger] texts(list)[i] == list[i]@,
        pair_texts(pairs).len() == pairs.len(),
        forall|i: int|
            0 <= i < pairs.len() ==> #[trigger] pair_texts(pairs)[i] == (
                pairs[i].0@,
                pairs[i].1@,
            ),
{
}

} // verus!
