use vstd::prelude::*;
use crate::instruction::{Instruction, loops_matched};
use crate::parser::{
    ParseError, balance, commands, is_command, lemma_failed_stays, lemma_step_inv, never_negative,
    parse_spec, scan, scan_inv, step,
};
use crate::codegen::{asm_text, block, body};

verus! {

/// The parser's state holds its invariant after any source that fits in memory.
proof fn lemma_scan_inv(s: Seq<char>)
    requires
        s.len() <= usize::MAX,
    ensures
        scan(s) matches Some((p, o)) ==> scan_inv(p, o) && p.len() <= s.len(),
    decreases s.len(),
{
    if s.len() > 0 {
        lemma_scan_inv(s.drop_last());
        if let Some((p, o)) = scan(s.drop_last()) {
            lemma_step_inv(p, o, s.last());
        }
    } else {
        assert(scan_inv(Seq::empty(), Seq::empty()));
    }
}

/// A well-nested source (no prefix closes more loops than it opened, and all
/// are closed at the end) parses, and every program that parsing yields has
/// its loops matched: a `LoopStart` points at a `LoopEnd` that points back at
/// it, and the other way round.
pub proof fn lemma_parsed_loops_matched(s: Seq<char>)
    requires
        s.len() <= usize::MAX,
    ensures
        never_negative(s) && balance(s) == 0 ==> parse_spec(s) is Ok,
        parse_spec(s) matches Ok(p) ==> loops_matched(p),
{
    lemma_scan_inv(s);
    if never_negative(s) {
        let e = Seq::<char>::empty();
        assert(e + s =~= s);
        assert(scan(e) == Some((Seq::<Instruction>::empty(), Seq::<usize>::empty())));
        lemma_scan_extend(e, s);
    }
}

/// While the parser has not failed, it has as many loops open as the text
/// has `[` more than `]`.
proof fn lemma_open_count(s: Seq<char>)
    ensures
        scan(s) matches Some((p, o)) ==> o.len() == balance(s),
    decreases s.len(),
{
    if s.len() > 0 {
        lemma_open_count(s.drop_last());
    }
}

/// How many loops the parser has open after `x`, or zero once it failed.
spec fn open_depth(x: Seq<char>) -> int {
    match scan(x) {
        Some((_, o)) => o.len() as int,
        None => 0,
    }
}

/// From a state with `m` loops open, text none of whose prefixes closes more
/// than `m` loops leaves the parser running with `m + balance(b)` open.
proof fn lemma_scan_extend(x: Seq<char>, b: Seq<char>)
    requires
        scan(x) is Some,
        forall|k: int|
            0 <= k <= b.len() ==> open_depth(x) + balance(#[trigger] b.take(k)) >= 0,
    ensures
        scan(x + b) matches Some((p, o)) && o.len() == open_depth(x) + balance(b),
    decreases b.len(),
{
    if b.len() == 0 {
        assert(x + b =~= x);
    } else {
        let d = b.drop_last();
        assert forall|k: int| 0 <= k <= d.len() implies open_depth(x) + balance(
            #[trigger] d.take(k),
        ) >= 0 by {
            assert(d.take(k) =~= b.take(k));
        }
        lemma_scan_extend(x, d);
        assert((x + b).drop_last() =~= x + d);
        assert(b.take(b.len() as int) =~= b);
    }
}

/// A `]` fails with `UnmatchedCloseBracket` after any text that opens no
/// more loops than it closes, whatever follows it.
pub proof fn lemma_unmatched_close(a: Seq<char>, b: Seq<char>)
    requires
        balance(a) <= 0,
    ensures
        parse_spec(a + seq![']'] + b) == Err::<Seq<Instruction>, ParseError>(
            ParseError::UnmatchedCloseBracket,
        ),
{
    let x = a + seq![']'];
    lemma_open_count(a);
    assert(x.drop_last() =~= a);
    assert(scan(x) is None);
    lemma_failed_stays(x, b);
}

/// A `[` that no later `]` closes, after text with no unmatched `]`, fails
/// with `UnmatchedOpenBracket`.
pub proof fn lemma_unmatched_open(a: Seq<char>, b: Seq<char>)
    requires
        never_negative(a),
        never_negative(b),
    ensures
        parse_spec(a + seq!['['] + b) == Err::<Seq<Instruction>, ParseError>(
            ParseError::UnmatchedOpenBracket,
        ),
{
    let e = Seq::<char>::empty();
    assert(e + a =~= a);
    assert(scan(e) == Some((Seq::<Instruction>::empty(), Seq::<usize>::empty())));
    lemma_scan_extend(e, a);
    let x = a + seq!['['];
    assert(x.drop_last() =~= a);
    assert(x.last() == '[');
    lemma_scan_extend(x, b);
    assert(balance(b.take(b.len() as int)) >= 0);
    assert(b.take(b.len() as int) =~= b);
}

/// Comments do not matter: parsing `s` gives what parsing its command
/// characters alone gives.
pub proof fn lemma_comments_ignored(s: Seq<char>)
    ensures
        parse_spec(s) == parse_spec(commands(s)),
        scan(s) == scan(commands(s)),
    decreases s.len(),
{
    if s.len() > 0 {
        lemma_comments_ignored(s.drop_last());
        if is_command(s.last()) {
            assert(commands(s).drop_last() =~= commands(s.drop_last()));
        }
    }
}

/// A source without brackets parses to one non-loop instruction per command
/// character, and the blocks generated for it hold no label (no `:`).
pub proof fn lemma_no_brackets(s: Seq<char>)
    requires
        forall|i: int| 0 <= i < s.len() ==> #[trigger] s[i] != '[' && s[i] != ']',
    ensures
        parse_spec(s) matches Ok(p) && p.len() == commands(s).len() && (forall|i: int|
            0 <= i < p.len() ==> !(#[trigger] p[i] is LoopStart) && !(p[i] is LoopEnd))
            && !body(p).contains(':'),
    decreases s.len(),
{
    lemma_scan_no_brackets(s);
    if let Some((p, o)) = scan(s) {
        lemma_body_no_label(p);
    }
}

proof fn lemma_scan_no_brackets(s: Seq<char>)
    requires
        forall|i: int| 0 <= i < s.len() ==> #[trigger] s[i] != '[' && s[i] != ']',
    ensures
        scan(s) matches Some((p, o)) && o.len() == 0 && p.len() == commands(s).len() && (forall|
            i: int,
        | 0 <= i < p.len() ==> !(#[trigger] p[i] is LoopStart) && !(p[i] is LoopEnd)),
    decreases s.len(),
{
    if s.len() > 0 {
        let d = s.drop_last();
        assert forall|i: int| 0 <= i < d.len() implies #[trigger] d[i] != '[' && d[i] != ']' by {
            assert(d[i] == s[i]);
        }
        lemma_scan_no_brackets(d);
        assert(s.last() == s[s.len() - 1]);
    }
}

proof fn lemma_body_no_label(p: Seq<Instruction>)
    requires
        forall|i: int| 0 <= i < p.len() ==> !(#[trigger] p[i] is LoopStart) && !(p[i] is LoopEnd),
    ensures
        !body(p).contains(':'),
    decreases p.len(),
{
    if p.len() > 0 {
        let d = p.drop_last();
        assert forall|i: int| 0 <= i < d.len() implies !(#[trigger] d[i] is LoopStart) && !(
        d[i] is LoopEnd) by {
            assert(d[i] == p[i]);
        }
        lemma_body_no_label(d);
        let last = p[p.len() - 1];
        let blk = block((p.len() - 1) as nat, last);
        reveal_strlit("\tinc dword [dp]\n");
        reveal_strlit("\tdec dword [dp]\n");
        reveal_strlit("\tmov ebx, [dp]\n\tinc dword [tape + 4 * ebx]\n");
        reveal_strlit("\tmov ebx, [dp]\n\tdec dword [tape + 4 * ebx]\n");
        reveal_strlit("\tmov ebx, [dp]\n\tmov ecx, [tape + 4 * ebx]\n\tcall putchar\n");
        reveal_strlit("\tcall _getch\n\tmov ebx, [dp]\n\tmov [tape + 4 * ebx], eax\n");
        assert(!blk.contains(':'));
        let whole = body(d) + blk;
        assert forall|i: int| 0 <= i < whole.len() implies whole[i] != ':' by {
            if i < body(d).len() {
                assert(whole[i] == body(d)[i]);
            } else {
                assert(whole[i] == blk[i - body(d).len()]);
            }
        }
    }
}

/// Generation is a function of the program: two outputs for one program are
/// the same text.
pub proof fn lemma_generate_deterministic(p: Seq<Instruction>, r1: Seq<char>, r2: Seq<char>)
    requires
        r1 == asm_text(p),
        r2 == asm_text(p),
    ensures
        r1 == r2,
{
}

} // verus!
