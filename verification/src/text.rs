//! Text rendering: decimal numbers, lists joined by a separator, and the
//! round history that bidding agents are shown.

use vstd::prelude::*;
use crate::agent::RoundResult;

verus! {

/// The character of a decimal digit.
pub open spec fn digit_char(d: int) -> char {
    if d == 0 {
        '0'
    } else if d == 1 {
        '1'
    } else if d == 2 {
        '2'
    } else if d == 3 {
        '3'
    } else if d == 4 {
        '4'
    } else if d == 5 {
        '5'
    } else if d == 6 {
        '6'
    } else if d == 7 {
        '7'
    } else if d == 8 {
        '8'
    } else {
        '9'
    }
}

/// The decimal representation of `n`, without leading zeros.
pub open spec fn decimal(n: nat) -> Seq<char>
    decreases n,
{
    if n < 10 {
        seq![digit_char(n as int)]
    } else {
        decimal(n / 10).push(digit_char((n % 10) as int))
    }
}

/// The items joined by `sep`.
pub open spec fn joined(items: Seq<Seq<char>>, sep: Seq<char>) -> Seq<char>
    decreases items.len(),
{
    if items.len() == 0 {
        Seq::empty()
    } else if items.len() == 1 {
        items[0]
    } else {
        joined(items.drop_last(), sep) + sep + items.last()
    }
}

/// Joining one more item appends the separator and the item.
pub proof fn lemma_joined_step(items: Seq<Seq<char>>, sep: Seq<char>, k: int)
    requires
        0 <= k < items.len(),
    ensures
        joined(items.take(k + 1), sep) == if k == 0 {
            items[0]
        } else {
            joined(items.take(k), sep) + sep + items[k]
        },
{
    assert(items.take(k + 1).drop_last() =~= items.take(k));
}

/// Appends one decimal digit.
fn push_digit(s: &mut String, d: u64)
    requires
        d < 10,
    ensures
        final(s)@ == old(s)@.push(digit_char(d as int)),
{
    let piece: &str = match d {
        0 => "0",
        1 => "1",
        2 => "2",
        3 => "3",
        4 => "4",
        5 => "5",
        6 => "6",
        7 => "7",
        8 => "8",
        _ => "9",
    };
    proof {
        reveal_strlit("0");
        reveal_strlit("1");
        reveal_strlit("2");
        reveal_strlit("3");
        reveal_strlit("4");
        reveal_strlit("5");
        reveal_strlit("6");
        reveal_strlit("7");
        reveal_strlit("8");
        reveal_strlit("9");
        assert(piece@ =~= seq![digit_char(d as int)]);
    }
    s.append(piece);
    assert(s@ =~= old(s)@.push(digit_char(d as int)));
}

/// Appends the decimal representation of `n`.
pub fn push_decimal(s: &mut String, n: u64)
    ensures
        final(s)@ == old(s)@ + decimal(n as nat),
    decreases n,
{
    if n >= 10 {
        push_decimal(s, n / 10);
    }
    push_digit(s, n % 10);
    proof {
        if n >= 10 {
            assert(decimal(n as nat) == decimal((n / 10) as nat).push(digit_char((n % 10) as int)));
        }
    }
    assert(s@ =~= old(s)@ + decimal(n as nat));
}

/// Shown to an agent before the first round.
pub const NO_HISTORY: &'static str = "(まだ取引履歴はありません。今回が初回の入札です。)";

/// The pieces of a history line, between its five numbers.
pub const HISTORY_ROUND: &'static str = "ラウンド目: 清算価格: ";
pub const HISTORY_PRICE: &'static str = "円, 成立総量: ";
pub const HISTORY_VOLUME: &'static str = "l, あなたの入札threshold: ";
pub const HISTORY_THRESHOLD: &'static str = "円, 約定量: ";
pub const HISTORY_FILL: &'static str = "l";

/// The line separator.
pub const NEWLINE: &'static str = "\n";

/// The history line of one round, seen by the agent at `my_index`: the
/// round number (from 1), clearing price, volume, the agent's threshold and
/// the agent's allocation.
pub open spec fn history_line(r: RoundResult, my_index: int) -> Seq<char> {
    decimal((r.round + 1) as nat) + HISTORY_ROUND@ + decimal(r.price as nat) + HISTORY_PRICE@
        + decimal(r.volume as nat) + HISTORY_VOLUME@ + decimal(r.thresholds@[my_index] as nat)
        + HISTORY_THRESHOLD@ + decimal(r.allocation@[my_index] as nat) + HISTORY_FILL@
}

/// `t` occurs in `s` as a contiguous piece.
pub open spec fn contains_text(s: Seq<char>, t: Seq<char>) -> bool {
    exists|k: int| 0 <= k && k + t.len() <= s.len() && #[trigger] s.subrange(k, k + t.len()) == t
}

/// `s` begins with `t`.
pub open spec fn starts_with(s: Seq<char>, t: Seq<char>) -> bool {
    t.len() <= s.len() && s.subrange(0, t.len() as int) == t
}

/// `s` ends with `t`.
pub open spec fn ends_with(s: Seq<char>, t: Seq<char>) -> bool {
    t.len() <= s.len() && s.subrange(s.len() - t.len(), s.len() as int) == t
}

/// A piece between two others occurs in their concatenation.
pub proof fn lemma_contains_middle(x: Seq<char>, t: Seq<char>, y: Seq<char>)
    ensures
        contains_text(x + t + y, t),
{
    assert((x + t + y).subrange(x.len() as int, (x.len() + t.len()) as int) =~= t);
}

/// A concatenation begins with its first piece and ends with its last.
pub proof fn lemma_ends_of_concat(x: Seq<char>, y: Seq<char>)
    ensures
        starts_with(x + y, x),
        ends_with(x + y, y),
{
    assert((x + y).subrange(0, x.len() as int) =~= x);
    assert((x + y).subrange(x.len() as int, (x + y).len() as int) =~= y);
}

/// A piece of a piece of a text is a piece of the text.
pub proof fn lemma_contains_trans(s: Seq<char>, m: Seq<char>, t: Seq<char>)
    requires
        contains_text(s, m),
        contains_text(m, t),
    ensures
        contains_text(s, t),
{
    let k1: int = choose|k: int| 0 <= k && k + m.len() <= s.len() && #[trigger] s.subrange(k, k + m.len()) == m;
    let k2: int = choose|k: int| 0 <= k && k + t.len() <= m.len() && #[trigger] m.subrange(k, k + t.len()) == t;
    assert(s.subrange(k1 + k2, k1 + k2 + t.len()) =~= m.subrange(k2, k2 + t.len()));
}

/// A text that ends with `t` holds `t`.
pub proof fn lemma_ends_with_contains(s: Seq<char>, t: Seq<char>)
    requires
        ends_with(s, t),
    ensures
        contains_text(s, t),
{
    let k: int = s.len() - t.len();
    assert(s.subrange(k, k + t.len()) == t);
}

/// Every item of a joined list occurs in the joined text.
pub proof fn lemma_joined_contains(items: Seq<Seq<char>>, sep: Seq<char>, k: int)
    requires
        0 <= k < items.len(),
    ensures
        contains_text(joined(items, sep), items[k]),
    decreases items.len(),
{
    if items.len() == 1 {
        assert(joined(items, sep) == items[k]);
        lemma_contains_middle(Seq::<char>::empty(), items[k], Seq::<char>::empty());
        assert(Seq::<char>::empty() + items[k] + Seq::<char>::empty() =~= items[k]);
    } else {
        let prev = joined(items.drop_last(), sep);
        assert(joined(items, sep) == prev + sep + items.last());
        if k == items.len() - 1 {
            assert(prev + sep + items.last() =~= (prev + sep) + items.last() + Seq::<char>::empty());
            lemma_contains_middle(prev + sep, items.last(), Seq::<char>::empty());
        } else {
            assert(items.drop_last()[k] == items[k]);
            lemma_joined_contains(items.drop_last(), sep, k);
            lemma_contains_extend(prev, items[k], sep);
            lemma_contains_extend(prev + sep, items[k], items.last());
        }
    }
}

/// A piece found in a text is still found once more text follows.
pub proof fn lemma_contains_extend(s: Seq<char>, t: Seq<char>, u: Seq<char>)
    requires
        contains_text(s, t),
    ensures
        contains_text(s + u, t),
{
    let k: int = choose|k: int| 0 <= k && k + t.len() <= s.len() && #[trigger] s.subrange(k, k + t.len()) == t;
    assert((s + u).subrange(k, k + t.len()) =~= s.subrange(k, k + t.len()));
}

/// A text that begins with `t` still does once more text follows.
pub proof fn lemma_starts_extend(s: Seq<char>, t: Seq<char>, u: Seq<char>)
    requires
        starts_with(s, t),
    ensures
        starts_with(s + u, t),
{
    assert((s + u).subrange(0, t.len() as int) =~= s.subrange(0, t.len() as int));
}

/// A value between two labels that are each the tail and the head of the
/// surrounding pieces: `x + (a1 + a2) + v + (b1 + b2)` holds `a2 + v + b1`.
proof fn lemma_labelled(x: Seq<char>, a1: Seq<char>, a2: Seq<char>, v: Seq<char>, b1: Seq<char>, b2: Seq<char>)
    ensures
        contains_text(x + (a1 + a2) + v + (b1 + b2), a2 + v + b1),
{
    assert(x + (a1 + a2) + v + (b1 + b2) =~= (x + a1) + (a2 + v + b1) + b2);
    lemma_contains_middle(x + a1, a2 + v + b1, b2);
}

/// `x + (a1 + a2) + v + e` ends with `a2 + v + e`.
proof fn lemma_labelled_end(x: Seq<char>, a1: Seq<char>, a2: Seq<char>, v: Seq<char>, e: Seq<char>)
    ensures
        ends_with(x + (a1 + a2) + v + e, a2 + v + e),
{
    assert(x + (a1 + a2) + v + e =~= (x + a1) + (a2 + v + e));
    lemma_ends_of_concat(x + a1, a2 + v + e);
}

/// `n + (a1 + a2)` begins with `n + a1`.
proof fn lemma_labelled_start(n: Seq<char>, a1: Seq<char>, a2: Seq<char>)
    ensures
        starts_with(n + (a1 + a2), n + a1),
{
    assert(n + (a1 + a2) =~= (n + a1) + a2);
    lemma_ends_of_concat(n + a1, a2);
}

/// The pieces of a history line, split at the labels of its numbers.
proof fn lemma_history_pieces()
    ensures
        HISTORY_ROUND@ == "ラウンド目"@ + (": "@ + "清算価格: "@),
        HISTORY_PRICE@ == "円"@ + (", "@ + "成立総量: "@),
        HISTORY_VOLUME@ == "l"@ + (", "@ + "あなたの入札threshold: "@),
        HISTORY_THRESHOLD@ == "円"@ + (", "@ + "約定量: "@),
        HISTORY_PRICE@ == ("円"@ + ", "@) + "成立総量: "@,
        HISTORY_VOLUME@ == ("l"@ + ", "@) + "あなたの入札threshold: "@,
        HISTORY_THRESHOLD@ == ("円"@ + ", "@) + "約定量: "@,
        HISTORY_ROUND@ == ("ラウンド目"@ + ": "@) + "清算価格: "@,
        HISTORY_FILL@ == "l"@,
{
    reveal_strlit("ラウンド目: 清算価格: ");
    reveal_strlit("円, 成立総量: ");
    reveal_strlit("l, あなたの入札threshold: ");
    reveal_strlit("円, 約定量: ");
    reveal_strlit("l");
    reveal_strlit("ラウンド目");
    reveal_strlit(": ");
    reveal_strlit("清算価格: ");
    reveal_strlit("円");
    reveal_strlit(", ");
    reveal_strlit("成立総量: ");
    reveal_strlit("あなたの入札threshold: ");
    reveal_strlit("約定量: ");
    assert(HISTORY_ROUND@ =~= "ラウンド目"@ + (": "@ + "清算価格: "@));
    assert(HISTORY_PRICE@ =~= "円"@ + (", "@ + "成立総量: "@));
    assert(HISTORY_VOLUME@ =~= "l"@ + (", "@ + "あなたの入札threshold: "@));
    assert(HISTORY_THRESHOLD@ =~= "円"@ + (", "@ + "約定量: "@));
    assert(HISTORY_PRICE@ =~= ("円"@ + ", "@) + "成立総量: "@);
    assert(HISTORY_VOLUME@ =~= ("l"@ + ", "@) + "あなたの入札threshold: "@);
    assert(HISTORY_THRESHOLD@ =~= ("円"@ + ", "@) + "約定量: "@);
    assert(HISTORY_ROUND@ =~= ("ラウンド目"@ + ": "@) + "清算価格: "@);
    assert(HISTORY_FILL@ =~= "l"@);
}

/// The pieces of a text, one after another.
pub open spec fn concat(pieces: Seq<Seq<char>>) -> Seq<char>
    decreases pieces.len(),
{
    if pieces.len() == 0 {
        Seq::empty()
    } else {
        concat(pieces.drop_last()) + pieces.last()
    }
}

/// What the first `k` pieces hold, the whole concatenation holds.
pub proof fn lemma_concat_prefix_contains(pieces: Seq<Seq<char>>, k: int, t: Seq<char>)
    requires
        0 <= k <= pieces.len(),
        contains_text(concat(pieces.take(k)), t),
    ensures
        contains_text(concat(pieces), t),
    decreases pieces.len() - k,
{
    if k < pieces.len() {
        assert(pieces.take(k + 1).drop_last() =~= pieces.take(k));
        lemma_contains_extend(concat(pieces.take(k)), t, pieces[k]);
        lemma_concat_prefix_contains(pieces, k + 1, t);
    } else {
        assert(pieces.take(k) =~= pieces);
    }
}

/// A figure in a concatenation, whose piece before ends with a label and
/// whose piece after begins with a separator, stands between the two:
/// `label + figure + separator` occurs in the text.
pub proof fn lemma_concat_labelled(
    pieces: Seq<Seq<char>>,
    v: int,
    head: Seq<char>,
    label: Seq<char>,
    sep: Seq<char>,
    tail: Seq<char>,
)
    requires
        1 <= v,
        v + 1 < pieces.len(),
        pieces[v - 1] == head + label,
        pieces[v + 1] == sep + tail,
    ensures
        contains_text(concat(pieces), label + pieces[v] + sep),
{
    let x = concat(pieces.take(v - 1));
    assert(pieces.take(v + 2).drop_last() =~= pieces.take(v + 1));
    assert(pieces.take(v + 1).drop_last() =~= pieces.take(v));
    assert(pieces.take(v).drop_last() =~= pieces.take(v - 1));
    assert(concat(pieces.take(v)) == x + pieces[v - 1]);
    assert(concat(pieces.take(v + 1)) == concat(pieces.take(v)) + pieces[v]);
    assert(concat(pieces.take(v + 2)) == concat(pieces.take(v + 1)) + pieces[v + 1]);
    lemma_labelled(x, head, label, pieces[v], sep, tail);
    lemma_concat_prefix_contains(pieces, v + 2, label + pieces[v] + sep);
}

/// In the history line of a round, each number stands after its own label:
/// the line begins with the round number (from 1) and `ラウンド目`; the
/// clearing price follows `清算価格: `, the traded volume `成立総量: `, the
/// agent's own threshold `あなたの入札threshold: `; and the line ends with
/// `約定量: ` and the agent's own fill, `allocation[my_index]`, in litres.
pub proof fn lemma_history_line_fields(r: RoundResult, my_index: int)
    ensures
        starts_with(history_line(r, my_index), decimal((r.round + 1) as nat) + "ラウンド目"@),
        contains_text(history_line(r, my_index), "清算価格: "@ + decimal(r.price as nat) + "円"@),
        contains_text(history_line(r, my_index), "成立総量: "@ + decimal(r.volume as nat) + "l"@),
        contains_text(
            history_line(r, my_index),
            "あなたの入札threshold: "@ + decimal(r.thresholds@[my_index] as nat) + "円"@,
        ),
        ends_with(
            history_line(r, my_index),
            "約定量: "@ + decimal(r.allocation@[my_index] as nat) + "l"@,
        ),
{
    lemma_history_pieces();
    let n = decimal((r.round + 1) as nat);
    let p = decimal(r.price as nat);
    let v = decimal(r.volume as nat);
    let th = decimal(r.thresholds@[my_index] as nat);
    let f = decimal(r.allocation@[my_index] as nat);
    let hr = HISTORY_ROUND@;
    let hp = HISTORY_PRICE@;
    let hv = HISTORY_VOLUME@;
    let ht = HISTORY_THRESHOLD@;
    let hf = HISTORY_FILL@;
    // the line begins with the round number
    lemma_labelled_start(n, "ラウンド目"@, ": "@ + "清算価格: "@);
    lemma_starts_extend(n + hr, n + "ラウンド目"@, p);
    lemma_starts_extend(n + hr + p, n + "ラウンド目"@, hp);
    lemma_starts_extend(n + hr + p + hp, n + "ラウンド目"@, v);
    lemma_starts_extend(n + hr + p + hp + v, n + "ラウンド目"@, hv);
    lemma_starts_extend(n + hr + p + hp + v + hv, n + "ラウンド目"@, th);
    lemma_starts_extend(n + hr + p + hp + v + hv + th, n + "ラウンド目"@, ht);
    lemma_starts_extend(n + hr + p + hp + v + hv + th + ht, n + "ラウンド目"@, f);
    lemma_starts_extend(n + hr + p + hp + v + hv + th + ht + f, n + "ラウンド目"@, hf);
    // the price
    let tp = "清算価格: "@ + p + "円"@;
    lemma_labelled(n, "ラウンド目"@ + ": "@, "清算価格: "@, p, "円"@, ", "@ + "成立総量: "@);
    lemma_contains_extend(n + hr + p + hp, tp, v);
    lemma_contains_extend(n + hr + p + hp + v, tp, hv);
    lemma_contains_extend(n + hr + p + hp + v + hv, tp, th);
    lemma_contains_extend(n + hr + p + hp + v + hv + th, tp, ht);
    lemma_contains_extend(n + hr + p + hp + v + hv + th + ht, tp, f);
    lemma_contains_extend(n + hr + p + hp + v + hv + th + ht + f, tp, hf);
    // the volume
    let tv = "成立総量: "@ + v + "l"@;
    lemma_labelled(n + hr + p, "円"@ + ", "@, "成立総量: "@, v, "l"@, ", "@ + "あなたの入札threshold: "@);
    lemma_contains_extend(n + hr + p + hp + v + hv, tv, th);
    lemma_contains_extend(n + hr + p + hp + v + hv + th, tv, ht);
    lemma_contains_extend(n + hr + p + hp + v + hv + th + ht, tv, f);
    lemma_contains_extend(n + hr + p + hp + v + hv + th + ht + f, tv, hf);
    // the agent's threshold
    let tt = "あなたの入札threshold: "@ + th + "円"@;
    lemma_labelled(n + hr + p + hp + v, "l"@ + ", "@, "あなたの入札threshold: "@, th, "円"@, ", "@ + "約定量: "@);
    lemma_contains_extend(n + hr + p + hp + v + hv + th + ht, tt, f);
    lemma_contains_extend(n + hr + p + hp + v + hv + th + ht + f, tt, hf);
    // the agent's fill
    lemma_labelled_end(n + hr + p + hp + v + hv + th, "円"@ + ", "@, "約定量: "@, f, "l"@);
}

/// The history an agent is shown: a notice when there are no rounds yet,
/// else one line per round.
pub open spec fn history_text(results: Seq<RoundResult>, my_index: int) -> Seq<char> {
    if results.len() == 0 {
        NO_HISTORY@
    } else {
        joined(results.map_values(|r: RoundResult| history_line(r, my_index)), NEWLINE@)
    }
}

/// A round's line can be rendered for the agent at `my_index`.
pub open spec fn history_renderable(r: RoundResult, my_index: int) -> bool {
    &&& 0 <= my_index < r.thresholds@.len()
    &&& my_index < r.allocation@.len()
    &&& r.round < usize::MAX
}

fn push_history_line(s: &mut String, r: &RoundResult, my_index: usize)
    requires
        history_renderable(*r, my_index as int),
    ensures
        final(s)@ == old(s)@ + history_line(*r, my_index as int),
{
    push_decimal(s, (r.round + 1) as u64);
    s.append(HISTORY_ROUND);
    push_decimal(s, r.price);
    s.append(HISTORY_PRICE);
    push_decimal(s, r.volume);
    s.append(HISTORY_VOLUME);
    push_decimal(s, r.thresholds[my_index]);
    s.append(HISTORY_THRESHOLD);
    push_decimal(s, r.allocation[my_index]);
    s.append(HISTORY_FILL);
    assert(s@ =~= old(s)@ + history_line(*r, my_index as int));
}

/// The round history shown to the agent at `my_index`.
pub fn format_history(results: &[RoundResult], my_index: usize) -> (r: String)
    requires
        forall|k: int|
            0 <= k < results@.len() ==> history_renderable(#[trigger] results@[k], my_index as int),
    ensures
        r@ == history_text(results@, my_index as int),
{
    let mut s: String = String::new();
    if results.len() == 0 {
        s.append(NO_HISTORY);
        assert(s@ =~= NO_HISTORY@);
        return s;
    }
    let ghost lines = results@.map_values(|r: RoundResult| history_line(r, my_index as int));
    for k in 0..results.len()
        invariant
            lines == results@.map_values(|r: RoundResult| history_line(r, my_index as int)),
            forall|j: int|
                0 <= j < results@.len() ==> history_renderable(#[trigger] results@[j], my_index as int),
            s@ == joined(lines.take(k as int), NEWLINE@),
    {
        let ghost before = s@;
        if k > 0 {
            s.append(NEWLINE);
        }
        push_history_line(&mut s, &results[k], my_index);
        proof {
            lemma_joined_step(lines, NEWLINE@, k as int);
            if k == 0 {
                assert(lines.take(0) =~= Seq::<Seq<char>>::empty());
                assert(s@ =~= lines[0]);
            } else {
                assert(s@ =~= before + NEWLINE@ + lines[k as int]);
            }
        }
    }
    assert(lines.take(results@.len() as int) =~= lines);
    s
}

/// The history an agent is shown holds, for every round, that round's
/// clearing price after `清算価格: `, its volume after `成立総量: `, the agent's
/// own threshold after `あなたの入札threshold: ` and the agent's own fill,
/// `allocation[my_index]`, after `約定量: `.
pub proof fn lemma_history_shows_every_round(results: Seq<RoundResult>, my_index: int, k: int)
    requires
        0 <= k < results.len(),
    ensures
        contains_text(
            history_text(results, my_index),
            "清算価格: "@ + decimal(results[k].price as nat) + "円"@,
        ),
        contains_text(
            history_text(results, my_index),
            "成立総量: "@ + decimal(results[k].volume as nat) + "l"@,
        ),
        contains_text(
            history_text(results, my_index),
            "あなたの入札threshold: "@ + decimal(results[k].thresholds@[my_index] as nat) + "円"@,
        ),
        contains_text(
            history_text(results, my_index),
            "約定量: "@ + decimal(results[k].allocation@[my_index] as nat) + "l"@,
        ),
{
    let lines = results.map_values(|r: RoundResult| history_line(r, my_index));
    let line = history_line(results[k], my_index);
    assert(lines[k] == line);
    lemma_joined_contains(lines, NEWLINE@, k);
    lemma_history_line_fields(results[k], my_index);
    lemma_ends_with_contains(line, "約定量: "@ + decimal(results[k].allocation@[my_index] as nat) + "l"@);
    let text = history_text(results, my_index);
    lemma_contains_trans(text, line, "清算価格: "@ + decimal(results[k].price as nat) + "円"@);
    lemma_contains_trans(text, line, "成立総量: "@ + decimal(results[k].volume as nat) + "l"@);
    lemma_contains_trans(
        text,
        line,
        "あなたの入札threshold: "@ + decimal(results[k].thresholds@[my_index] as nat) + "円"@,
    );
    lemma_contains_trans(
        text,
        line,
        "約定量: "@ + decimal(results[k].allocation@[my_index] as nat) + "l"@,
    );
}

/// The value of a decimal digit character.
pub open spec fn digit_value(c: char) -> nat {
    if c == '1' {
        1
    } else if c == '2' {
        2
    } else if c == '3' {
        3
    } else if c == '4' {
        4
    } else if c == '5' {
        5
    } else if c == '6' {
        6
    } else if c == '7' {
        7
    } else if c == '8' {
        8
    } else if c == '9' {
        9
    } else {
        0
    }
}

/// The number a string of decimal digits denotes.
pub open spec fn decimal_value(digits: Seq<char>) -> nat
    decreases digits.len(),
{
    if digits.len() == 0 {
        0
    } else {
        decimal_value(digits.drop_last()) * 10 + digit_value(digits.last())
    }
}

/// Reading back the decimal representation of `n` gives `n`, and it has no
/// leading zero unless `n` is zero.
pub proof fn lemma_decimal_round_trip(n: nat)
    ensures
        decimal_value(decimal(n)) == n,
        decimal(n).len() >= 1,
        n > 0 ==> decimal(n)[0] != '0',
    decreases n,
{
    let d: int = (n % 10) as int;
    assert(digit_value(digit_char(d)) == d);
    if n >= 10 {
        lemma_decimal_round_trip(n / 10);
        assert(decimal(n).drop_last() =~= decimal(n / 10));
        vstd::arithmetic::div_mod::lemma_fundamental_div_mod(n as int, 10);
        assert(decimal(n)[0] == decimal(n / 10)[0]);
        assert(decimal(n).last() == digit_char(d));
        assert(decimal_value(decimal(n)) == decimal_value(decimal(n / 10)) * 10 + d);
    } else {
        assert(decimal(n).drop_last() =~= Seq::<char>::empty());
        assert(decimal(n).last() == digit_char(d));
        assert(decimal_value(decimal(n)) == decimal_value(Seq::<char>::empty()) * 10 + d);
    }
}

} // verus!
