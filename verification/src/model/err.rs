//! Rendering of the lines around a syntax error in a model document.

use vstd::prelude::*;
use crate::text::{
    count_newlines, decimal, digits_value, lemma_decimal_value, lemma_count_newlines_add, lemma_decimal_digits, lemma_no_newlines,
    pad_left, push_decimal, push_spaces, spaces,
};

verus! {

/// The pieces of `s` between newline bytes, as `split(|&c| c == b'\n')`
/// yields them: a document with `k` newlines has `k + 1` pieces, the last one
/// empty when the document ends with a newline.
pub open spec fn split_lines(s: Seq<u8>) -> Seq<Seq<u8>>
    decreases s.len(),
{
    if s.len() == 0 {
        seq![Seq::<u8>::empty()]
    } else {
        let init = split_lines(s.drop_last());
        if s.last() == 10u8 {
            init.push(Seq::<u8>::empty())
        } else {
            init.update(init.len() - 1, init.last().push(s.last()))
        }
    }
}

/// There is always at least one piece.
pub proof fn lemma_split_lines_nonempty(s: Seq<u8>)
    ensures
        split_lines(s).len() >= 1,
    decreases s.len(),
{
    if s.len() > 0 {
        lemma_split_lines_nonempty(s.drop_last());
    }
}

/// The pieces put back together with a newline between each two.
pub open spec fn join_lines(lines: Seq<Seq<u8>>) -> Seq<u8>
    decreases lines.len(),
{
    if lines.len() == 0 {
        Seq::<u8>::empty()
    } else if lines.len() == 1 {
        lines[0]
    } else {
        join_lines(lines.drop_last()) + seq![10u8] + lines.last()
    }
}

/// Splitting loses nothing: no piece holds a newline, and joining the
/// pieces with newlines gives the document back. So line `k` of the message
/// is the text between the document's `k`-th and `k + 1`-th newline.
pub proof fn lemma_split_join(s: Seq<u8>)
    ensures
        join_lines(split_lines(s)) == s,
        forall|k: int, j: int|
            0 <= k < split_lines(s).len() && 0 <= j < split_lines(s)[k].len() ==> #[trigger] split_lines(
                s,
            )[k][j] != 10u8,
    decreases s.len(),
{
    if s.len() == 0 {
        assert(join_lines(split_lines(s)) =~= s);
    } else {
        let init = s.drop_last();
        lemma_split_join(init);
        lemma_split_lines_nonempty(init);
        let p = split_lines(init);
        let b = s.last();
        if b == 10u8 {
            let q = p.push(Seq::<u8>::empty());
            assert(q.drop_last() =~= p);
            assert(join_lines(q) =~= s);
            assert forall|k: int, j: int|
                0 <= k < q.len() && 0 <= j < q[k].len() implies #[trigger] q[k][j] != 10u8 by {
                if k < p.len() {
                    assert(q[k] == p[k]);
                }
            }
        } else {
            let q = p.update(p.len() - 1, p.last().push(b));
            if p.len() == 1 {
                assert(join_lines(q) =~= s);
            } else {
                assert(q.drop_last() =~= p.drop_last());
                assert(join_lines(q) =~= join_lines(p).push(b));
                assert(join_lines(q) =~= s);
            }
            assert forall|k: int, j: int|
                0 <= k < q.len() && 0 <= j < q[k].len() implies #[trigger] q[k][j] != 10u8 by {
                if k < p.len() - 1 {
                    assert(q[k] == p[k]);
                } else if j < p.last().len() {
                    assert(q[k][j] == p[k][j]);
                }
            }
        }
    }
}

/// What `String::from_utf8_lossy` makes of a byte sequence.
pub uninterp spec fn lossy_utf8(bytes: Seq<u8>) -> Seq<char>;

/// `String::from_utf8_lossy`, copied into an owned `String`. The contract
/// says that the result is the named decoding of the bytes, and, as the std
/// documentation states, that valid UTF-8 is decoded unchanged and that
/// invalid sequences become U+FFFD, so a newline in the result comes from a
/// newline byte. What it does
/// with invalid sequences (one U+FFFD per maximal invalid part) is left to
/// the name.
#[verifier::external_body]
pub(crate) fn decode_lossy(bytes: &[u8]) -> (res: String)
    ensures
        res@ == lossy_utf8(bytes@),
        vstd::utf8::valid_utf8(bytes@) ==> res@ == vstd::utf8::decode_utf8(bytes@),
        (forall|i: int| 0 <= i < bytes@.len() ==> bytes@[i] != 10u8) ==> (forall|j: int|
            0 <= j < res@.len() ==> res@[j] != '\n'),
{
    String::from_utf8_lossy(bytes).into_owned()
}

/// The first line shown: four lines before the target, or the first line.
pub open spec fn window_start(target: nat) -> nat {
    if target >= 4 {
        (target - 4) as nat
    } else {
        0
    }
}

/// The text shown for line `k` (counted from zero): the line decoded, or
/// nothing past the end of the document.
pub open spec fn shown_line(lines: Seq<Seq<u8>>, k: int) -> Seq<char> {
    if 0 <= k < lines.len() {
        lossy_utf8(lines[k])
    } else {
        Seq::<char>::empty()
    }
}

/// `"{:3} | {}\n"` of a line number and a line's text.
pub open spec fn numbered_line(number: nat, text: Seq<char>) -> Seq<char> {
    pad_left(decimal(number), 3) + " | "@ + text + "\n"@
}

/// A numbered line is the line number in decimal, right-aligned in three
/// columns (spaces in front, never cut), then ` | `, the text and a newline.
pub proof fn lemma_numbered_line(number: nat, text: Seq<char>)
    ensures
        exists|pad: nat, digits: Seq<char>|
            #![trigger spaces(pad), digits_value(digits)]
            numbered_line(number, text) == spaces(pad) + digits + " | "@ + text + "\n"@
                && digits_value(digits) == number && digits.len() >= 1 && (digits.len() > 1
                ==> digits[0] != '0') && pad + digits.len() == if digits.len() < 3 {
                3
            } else {
                digits.len()
            } && forall|i: int| 0 <= i < digits.len() ==> 48 <= #[trigger] (digits[i] as int) <= 57,
{
    lemma_decimal_value(number);
    let d = decimal(number);
    if d.len() < 3 {
        let pad = (3 - d.len()) as nat;
        assert(numbered_line(number, text) == spaces(pad) + d + " | "@ + text + "\n"@);
        assert(digits_value(d) == number);
    } else {
        assert(spaces(0) + d =~= d);
        assert(numbered_line(number, text) == spaces(0) + d + " | "@ + text + "\n"@);
        assert(digits_value(d) == number);
    }
}

/// The caret stands in column `col` of the line's text: after the five
/// characters of the ` NNN ` gutter, `col` spaces and one more space; the
/// error follows it.
pub proof fn lemma_caret_line(col: nat, err: Seq<char>)
    ensures
        caret_line(col, err).len() == col + 9 + err.len(),
        forall|i: int| 0 <= i < col + 6 ==> #[trigger] caret_line(col, err)[i] == ' ',
        caret_line(col, err)[col + 6int] == '^',
        caret_line(col, err)[col + 7int] == ' ',
        caret_line(col, err).subrange(col + 8int, col + 8int + err.len()) == err,
        caret_line(col, err).last() == '\n',
{
    reveal_strlit("     ");
    reveal_strlit(" ^ ");
    reveal_strlit("\n");
    let c = caret_line(col, err);
    assert(c.subrange(col + 8int, col + 8int + err.len()) =~= err);
}

/// `"     {} ^ {:?}\n"` of `col` spaces and the error's rendering.
pub open spec fn caret_line(col: nat, err: Seq<char>) -> Seq<char> {
    "     "@ + spaces(col) + " ^ "@ + err + "\n"@
}

/// The output for the `no`-th shown line: the numbered line, and the caret
/// line after it when it is the target line.
pub open spec fn context_entry(
    lines: Seq<Seq<u8>>,
    first: nat,
    target: nat,
    col: nat,
    err: Seq<char>,
    no: nat,
) -> Seq<char> {
    let this = first + no;
    numbered_line(this + 1, shown_line(lines, this as int)) + if this == target {
        caret_line(col, err)
    } else {
        Seq::<char>::empty()
    }
}

/// The output for the first `n` shown lines.
pub open spec fn context_upto(
    lines: Seq<Seq<u8>>,
    first: nat,
    target: nat,
    col: nat,
    err: Seq<char>,
    n: nat,
) -> Seq<char>
    decreases n,
{
    if n == 0 {
        Seq::<char>::empty()
    } else {
        context_upto(lines, first, target, col, err, (n - 1) as nat) + context_entry(
            lines,
            first,
            target,
            col,
            err,
            (n - 1) as nat,
        )
    }
}

/// The whole message: seven numbered lines from `window_start(target)`, with
/// the caret line under the target line.
pub open spec fn source_context_text(
    from: Seq<u8>,
    err: Seq<char>,
    target: nat,
    col: nat,
) -> Seq<char> {
    context_upto(split_lines(from), window_start(target), target, col, err, 7)
}

/// The output for shown lines `a` up to (not including) `b`.
pub open spec fn context_between(
    lines: Seq<Seq<u8>>,
    first: nat,
    target: nat,
    col: nat,
    err: Seq<char>,
    a: nat,
    b: nat,
) -> Seq<char>
    decreases b - a,
{
    if b <= a {
        Seq::<char>::empty()
    } else {
        context_entry(lines, first, target, col, err, a) + context_between(
            lines,
            first,
            target,
            col,
            err,
            a + 1,
            b,
        )
    }
}

proof fn lemma_context_split(
    lines: Seq<Seq<u8>>,
    first: nat,
    target: nat,
    col: nat,
    err: Seq<char>,
    a: nat,
    b: nat,
)
    requires
        a <= b,
    ensures
        context_upto(lines, first, target, col, err, b) == context_upto(
            lines,
            first,
            target,
            col,
            err,
            a,
        ) + context_between(lines, first, target, col, err, a, b),
    decreases b - a,
{
    if a < b {
        lemma_context_split(lines, first, target, col, err, a + 1, b);
        let e = context_entry(lines, first, target, col, err, a);
        let rest = context_between(lines, first, target, col, err, a + 1, b);
        assert(context_between(lines, first, target, col, err, a, b) == e + rest);
        assert(context_upto(lines, first, target, col, err, a + 1) == context_upto(
            lines,
            first,
            target,
            col,
            err,
            a,
        ) + e);
        assert((context_upto(lines, first, target, col, err, a) + e) + rest =~= context_upto(
            lines,
            first,
            target,
            col,
            err,
            a,
        ) + (e + rest));
    } else {
        assert(context_upto(lines, first, target, col, err, a) + Seq::<char>::empty()
            =~= context_upto(lines, first, target, col, err, a));
    }
}

/// `whole` is `middle` with `before` in front of it and `after` behind it.
pub open spec fn framed(
    whole: Seq<char>,
    before: Seq<char>,
    middle: Seq<char>,
    after: Seq<char>,
) -> bool {
    whole == before + middle + after
}

/// Whatever the document and the error position, the message shows the
/// target line, numbered from one, and right after it the caret line; the
/// target line is never outside the seven-line window.
pub proof fn lemma_context_shows_target(from: Seq<u8>, err: Seq<char>, target: nat, col: nat)
    ensures
        window_start(target) <= target < window_start(target) + 7,
        target - window_start(target) == if target < 4 {
            target
        } else {
            4
        },
        exists|before: Seq<char>, after: Seq<char>|
            #[trigger] framed(
                source_context_text(from, err, target, col),
                before,
                numbered_line(target + 1, shown_line(split_lines(from), target as int))
                    + caret_line(col, err),
                after,
            ),
{
    let lines = split_lines(from);
    let first = window_start(target);
    let d = (target - first) as nat;
    lemma_context_split(lines, first, target, col, err, d, 7);
    let before = context_upto(lines, first, target, col, err, d);
    let after = context_between(lines, first, target, col, err, d + 1, 7);
    assert(context_between(lines, first, target, col, err, d, 7) == context_entry(
        lines,
        first,
        target,
        col,
        err,
        d,
    ) + after);
    assert(source_context_text(from, err, target, col) =~= before + (numbered_line(
        target + 1,
        shown_line(lines, target as int),
    ) + caret_line(col, err)) + after);
    assert(framed(
        source_context_text(from, err, target, col),
        before,
        numbered_line(target + 1, shown_line(lines, target as int)) + caret_line(col, err),
        after,
    ));
}

/// `s` holds no newline character.
pub open spec fn no_newline(s: Seq<char>) -> bool {
    forall|i: int| 0 <= i < s.len() ==> s[i] != '\n'
}

proof fn lemma_numbered_line_newlines(number: nat, text: Seq<char>)
    ensures
        no_newline(text) ==> count_newlines(numbered_line(number, text)) == 1,
        numbered_line(number, text).len() > 0 && numbered_line(number, text).last() == '\n',
{
    reveal_strlit(" | ");
    reveal_strlit("\n");
    let p = pad_left(decimal(number), 3);
    lemma_decimal_digits(number);
    assert(no_newline(p)) by {
        assert forall|i: int| 0 <= i < p.len() implies p[i] != '\n' by {
            if decimal(number).len() < 3 {
                let k = (3 - decimal(number).len()) as nat;
                if i >= k {
                    assert(p[i] == decimal(number)[i - k]);
                    assert(48 <= (decimal(number)[i - k] as int) <= 57);
                }
            } else {
                assert(48 <= (decimal(number)[i] as int) <= 57);
            }
        }
    }
    if no_newline(text) {
        lemma_no_newlines(p);
        lemma_no_newlines(" | "@);
        lemma_no_newlines(text);
        lemma_count_newlines_add(p, " | "@);
        lemma_count_newlines_add(p + " | "@, text);
        lemma_count_newlines_add(p + " | "@ + text, "\n"@);
        assert(count_newlines("\n"@) == 1) by {
            assert("\n"@ =~= seq!['\n']);
            assert(seq!['\n'].drop_last() =~= Seq::<char>::empty());
            assert(count_newlines(Seq::<char>::empty()) == 0);
        }
    }
}

proof fn lemma_caret_line_newlines(col: nat, err: Seq<char>)
    ensures
        no_newline(err) ==> count_newlines(caret_line(col, err)) == 1,
        caret_line(col, err).len() > 0 && caret_line(col, err).last() == '\n',
{
    reveal_strlit("     ");
    reveal_strlit(" ^ ");
    reveal_strlit("\n");
    if no_newline(err) {
        lemma_no_newlines("     "@);
        lemma_no_newlines(spaces(col));
        lemma_no_newlines(" ^ "@);
        lemma_no_newlines(err);
        lemma_count_newlines_add("     "@, spaces(col));
        lemma_count_newlines_add("     "@ + spaces(col), " ^ "@);
        lemma_count_newlines_add("     "@ + spaces(col) + " ^ "@, err);
        lemma_count_newlines_add("     "@ + spaces(col) + " ^ "@ + err, "\n"@);
        assert(count_newlines("\n"@) == 1) by {
            assert("\n"@ =~= seq!['\n']);
            assert(seq!['\n'].drop_last() =~= Seq::<char>::empty());
            assert(count_newlines(Seq::<char>::empty()) == 0);
        }
    }
}

proof fn lemma_entry_newlines(
    lines: Seq<Seq<u8>>,
    first: nat,
    target: nat,
    col: nat,
    err: Seq<char>,
    no: nat,
)
    requires
        no_newline(err),
        no_newline(shown_line(lines, (first + no) as int)),
    ensures
        count_newlines(context_entry(lines, first, target, col, err, no)) == 1 + if first + no
            == target {
            1nat
        } else {
            0nat
        },
        context_entry(lines, first, target, col, err, no).len() > 0,
        context_entry(lines, first, target, col, err, no).last() == '\n',
{
    let this = first + no;
    let n = numbered_line(this + 1, shown_line(lines, this as int));
    lemma_numbered_line_newlines(this + 1, shown_line(lines, this as int));
    if this == target {
        let c = caret_line(col, err);
        lemma_caret_line_newlines(col, err);
        lemma_count_newlines_add(n, c);
    } else {
        assert(n + Seq::<char>::empty() =~= n);
    }
}

/// Splits a document into its lines.
fn split_document(from: &[u8]) -> (lines: Vec<Vec<u8>>)
    ensures
        lines@.map_values(|v: Vec<u8>| v@) == split_lines(from@),
{
    let mut done: Vec<Vec<u8>> = Vec::new();
    let mut cur: Vec<u8> = Vec::new();
    let n = from.len();
    let mut i: usize = 0;
    assert(from@.take(0) =~= Seq::<u8>::empty());
    assert(done@.map_values(|v: Vec<u8>| v@).push(cur@) =~= seq![Seq::<u8>::empty()]);
    while i < n
        invariant
            n == from@.len(),
            i <= n,
            done@.map_values(|v: Vec<u8>| v@).push(cur@) == split_lines(from@.take(i as int)),
        decreases n - i,
    {
        let b = from[i];
        let ghost before = done@.map_values(|v: Vec<u8>| v@).push(cur@);
        assert(from@.take(i + 1).drop_last() =~= from@.take(i as int));
        assert(from@.take(i + 1).last() == b);
        if b == 10u8 {
            let piece = cur;
            done.push(piece);
            cur = Vec::new();
            assert(done@.map_values(|v: Vec<u8>| v@).push(cur@) =~= before.push(
                Seq::<u8>::empty(),
            ));
        } else {
            cur.push(b);
            assert(done@.map_values(|v: Vec<u8>| v@).push(cur@) =~= before.update(
                before.len() - 1,
                before.last().push(b),
            ));
        }
        i = i + 1;
    }
    assert(from@.take(n as int) =~= from@);
    done.push(cur);
    done
}

/// Appends `"{:3} | {}\n"` of `number` and `text`.
fn push_numbered_line(msg: &mut String, number: usize, text: &str)
    ensures
        final(msg)@ == old(msg)@ + numbered_line(number as nat, text@),
        no_newline(text@) ==> count_newlines(numbered_line(number as nat, text@)) == 1,
        numbered_line(number as nat, text@).len() > 0 && numbered_line(number as nat, text@).last()
            == '\n',
{
    let ghost start = msg@;
    let mut digits = String::new();
    push_decimal(&mut digits, number);
    let width = digits.as_str().unicode_len();
    if width < 3 {
        push_spaces(msg, 3 - width);
    }
    msg.append(digits.as_str());
    assert(msg@ =~= start + pad_left(decimal(number as nat), 3));
    msg.append(" | ");
    msg.append(text);
    msg.append("\n");
    assert(msg@ =~= start + numbered_line(number as nat, text@));
    proof {
        lemma_numbered_line_newlines(number as nat, text@);
    }
}

/// `col` spaces.
pub fn repeated_space(col: usize) -> (s: String)
    ensures
        s@ == spaces(col as nat),
{
    let mut s = String::new();
    push_spaces(&mut s, col);
    assert(s@ =~= spaces(col as nat));
    s
}

/// Appends `"     {} ^ {}\n"` of `col` spaces and `err`.
fn push_caret_line(msg: &mut String, col: usize, err: &str)
    ensures
        final(msg)@ == old(msg)@ + caret_line(col as nat, err@),
        no_newline(err@) ==> count_newlines(caret_line(col as nat, err@)) == 1,
        caret_line(col as nat, err@).len() > 0 && caret_line(col as nat, err@).last() == '\n',
{
    let ghost start = msg@;
    msg.append("     ");
    let pad = repeated_space(col);
    msg.append(pad.as_str());
    msg.append(" ^ ");
    msg.append(err);
    msg.append("\n");
    assert(msg@ =~= start + caret_line(col as nat, err@));
    proof {
        lemma_caret_line_newlines(col as nat, err@);
    }
}

/// Renders the lines around line `target_line` (counted from zero) of
/// `from`: seven lines numbered from one, starting four lines above the
/// target where there are that many, with a caret under column `col` of the
/// target line followed by `error_text`, the rendering of the error.
pub fn source_context(from: &[u8], error_text: &str, target_line: usize, col: usize) -> (msg:
    String)
    requires
        target_line <= usize::MAX - 3,
    ensures
        msg@ == source_context_text(from@, error_text@, target_line as nat, col as nat),
        no_newline(error_text@) ==> count_newlines(msg@) == 8 && msg@.len() > 0 && msg@.last()
            == '\n',
{
    let lines = split_document(from);
    let ghost ls = split_lines(from@);
    proof {
        lemma_split_join(from@);
    }
    let skipped: usize = if target_line >= 4 {
        target_line - 4
    } else {
        0
    };
    let mut msg = String::new();
    let mut no: usize = 0;
    while no < 7
        invariant
            no <= 7,
            skipped as nat == window_start(target_line as nat),
            target_line <= usize::MAX - 3,
            lines@.map_values(|v: Vec<u8>| v@) == ls,
            forall|k: int, j: int|
                0 <= k < ls.len() && 0 <= j < ls[k].len() ==> #[trigger] ls[k][j] != 10u8,
            no_newline(error_text@) ==> count_newlines(msg@) == no + if target_line < skipped
                + no {
                1nat
            } else {
                0nat
            },
            no_newline(error_text@) && no > 0 ==> msg@.len() > 0 && msg@.last() == '\n',
            msg@ == context_upto(
                ls,
                skipped as nat,
                target_line as nat,
                col as nat,
                error_text@,
                no as nat,
            ),
        decreases 7 - no,
    {
        let this_line = skipped + no;
        let ghost start = msg@;
        if this_line < lines.len() {
            assert(lines@[this_line as int]@ == ls[this_line as int]);
            let text = decode_lossy(lines[this_line].as_slice());
            assert(no_newline(text@));
            push_numbered_line(&mut msg, this_line + 1, text.as_str());
        } else {
            push_numbered_line(&mut msg, this_line + 1, "");
            assert(""@ =~= Seq::<char>::empty()) by {
                reveal_strlit("");
            }
        }
        let ghost shown = shown_line(ls, this_line as int);
        assert(no_newline(shown));
        if this_line == target_line {
            push_caret_line(&mut msg, col, error_text);
        }
        let ghost entry = context_entry(
            ls,
            skipped as nat,
            target_line as nat,
            col as nat,
            error_text@,
            no as nat,
        );
        assert(msg@ =~= start + entry);
        proof {
            if no_newline(error_text@) {
                lemma_entry_newlines(
                    ls,
                    skipped as nat,
                    target_line as nat,
                    col as nat,
                    error_text@,
                    no as nat,
                );
                lemma_count_newlines_add(start, entry);
            }
        }
        no = no + 1;
    }
    msg
}

} // verus!
