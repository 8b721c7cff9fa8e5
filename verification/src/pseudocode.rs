//! Built-in assembly to readable pseudocode translator.
//!
//! An assembly line is read as: an optional address column (a run of
//! hexadecimal digits followed by white space), a mnemonic (a run of ASCII
//! letters) and the operands (the rest of the line, trimmed).
use vstd::prelude::*;
use crate::text::{
    chars_eq, eq_str, find_chars, push_char, find_seq, is_alpha, is_hex, is_space, lower_chars, lower_seq, opt_index,
    push_chars, push_str, slice_chars, space, str_chars, trim, trim_chars,
};

verus! {

// ---------------------------------------------------------------------------
// Scanning specs
// ---------------------------------------------------------------------------

/// First index at or after `i` that holds a line feed, or the length.
pub open spec fn line_end(s: Seq<char>, i: int) -> int
    decreases s.len() - i,
{
    if i < 0 || i >= s.len() {
        s.len() as int
    } else if s[i] == '\n' {
        i
    } else {
        line_end(s, i + 1)
    }
}

/// The lines of `s` from position `i` on (std `str::lines`, before trimming).
pub open spec fn lines_from(s: Seq<char>, i: int) -> Seq<Seq<char>>
    decreases s.len() + 1 - i,
{
    if i < 0 || i >= s.len() {
        seq![]
    } else {
        let e = line_end(s, i);
        if e < i || e > s.len() {
            seq![]
        } else {
            seq![s.subrange(i, e)] + lines_from(s, e + 1)
        }
    }
}

/// The lines of `s`.
pub open spec fn spec_lines(s: Seq<char>) -> Seq<Seq<char>> {
    lines_from(s, 0)
}

/// First index at or after `i` that is not white space, or the length.
pub open spec fn skip_ws(s: Seq<char>, i: int) -> int
    decreases s.len() - i,
{
    if i < 0 || i >= s.len() {
        s.len() as int
    } else if is_space(s[i]) {
        skip_ws(s, i + 1)
    } else {
        i
    }
}

/// First index at or after `i` that is white space, or the length.
pub open spec fn token_end(s: Seq<char>, i: int) -> int
    decreases s.len() - i,
{
    if i < 0 || i >= s.len() {
        s.len() as int
    } else if is_space(s[i]) {
        i
    } else {
        token_end(s, i + 1)
    }
}

/// First index at or after `i` that is not a hexadecimal digit, or the length.
pub open spec fn hex_run_end(s: Seq<char>, i: int) -> int
    decreases s.len() - i,
{
    if i < 0 || i >= s.len() {
        s.len() as int
    } else if is_hex(s[i]) {
        hex_run_end(s, i + 1)
    } else {
        i
    }
}

/// First index at or after `i` that is not an ASCII letter, or the length.
pub open spec fn alpha_run_end(s: Seq<char>, i: int) -> int
    decreases s.len() - i,
{
    if i < 0 || i >= s.len() {
        s.len() as int
    } else if is_alpha(s[i]) {
        alpha_run_end(s, i + 1)
    } else {
        i
    }
}

/// A two-character token that `u8::from_str_radix(_, 16)` accepts.
pub open spec fn is_byte_token(t: Seq<char>) -> bool {
    t.len() == 2 && (is_hex(t[0]) || t[0] == '+') && is_hex(t[1])
}

/// Every white-space separated token from `i` on is a byte token.
pub open spec fn byte_tokens_from(s: Seq<char>, i: int) -> bool
    decreases s.len() + 1 - i,
{
    let a = skip_ws(s, i);
    if i < 0 || a >= s.len() || a < i {
        true
    } else {
        let b = token_end(s, a);
        if b <= a || b > s.len() {
            true
        } else {
            is_byte_token(s.subrange(a, b)) && byte_tokens_from(s, b)
        }
    }
}

/// A line that is a hex dump such as `48 89 e5`.
pub open spec fn is_hexdump(t: Seq<char>) -> bool {
    byte_tokens_from(t, 0)
}

/// Some character before `h` is a decimal digit.
pub open spec fn has_digit_before(t: Seq<char>, h: int) -> bool {
    exists|k: int| 0 <= k < h && k < t.len() && '0' <= t[k] && t[k] <= '9'
}

/// Where the mnemonic starts: after the address column when there is one. An
/// address column is a run of hexadecimal digits, holding at least one decimal
/// digit, followed by white space and then a letter.
pub open spec fn mnemonic_start(t: Seq<char>) -> int {
    let h = hex_run_end(t, 0);
    let j = skip_ws(t, h);
    if 0 < h && h < t.len() && has_digit_before(t, h) && is_space(t[h]) && j < t.len() && is_alpha(
        t[j],
    ) {
        j
    } else {
        0
    }
}

/// The mnemonic and the operands of an instruction line, if it has a mnemonic.
pub open spec fn parse_insn(t: Seq<char>) -> Option<(Seq<char>, Seq<char>)> {
    let j = mnemonic_start(t);
    let e = alpha_run_end(t, j);
    if e <= j || e > t.len() {
        None
    } else {
        Some((t.subrange(j, e), trim(t.subrange(e, t.len() as int))))
    }
}

/// The two operands `a, b` of an instruction; `b` is `dflt` when there is no comma.
pub open spec fn operands(ops: Seq<char>, dflt: Seq<char>) -> (Seq<char>, Seq<char>) {
    match find_seq(ops, seq![',']) {
        Some(k) => (trim(ops.subrange(0, k)), trim(ops.subrange(k + 1, ops.len() as int))),
        None => (trim(ops), dflt),
    }
}

/// The compound assignment operator for an arithmetic mnemonic.
pub open spec fn arith_op(m: Seq<char>) -> Seq<char> {
    if m == "add"@ {
        "+="@
    } else if m == "sub"@ {
        "-="@
    } else if m == "and"@ {
        "&="@
    } else if m == "or"@ {
        "|="@
    } else if m == "shl"@ {
        "<<="@
    } else if m == "shr"@ {
        ">>="@
    } else if m == "imul"@ || m == "mul"@ {
        "*="@
    } else if m == "div"@ {
        "/="@
    } else {
        "="@
    }
}

pub open spec fn is_arith(m: Seq<char>) -> bool {
    m == "add"@ || m == "sub"@ || m == "and"@ || m == "or"@ || m == "shl"@ || m == "shr"@ || m
        == "imul"@ || m == "mul"@ || m == "div"@
}

/// The pseudocode statement for a (lowercase) mnemonic and its operands.
pub open spec fn spec_translate(m: Seq<char>, ops: Seq<char>) -> Seq<char> {
    if m == "ret"@ || m == "retn"@ {
        "return;"@
    } else if m == "call"@ {
        "call("@ + ops + ");"@
    } else if m == "jmp"@ {
        "goto "@ + ops + ";"@
    } else if m == "je"@ || m == "jz"@ {
        "if (ZF) goto "@ + ops + ";"@
    } else if m == "jne"@ || m == "jnz"@ {
        "if (!ZF) goto "@ + ops + ";"@
    } else if m == "ja"@ || m == "jg"@ {
        "if (greater) goto "@ + ops + ";"@
    } else if m == "jb"@ || m == "jl"@ {
        "if (less) goto "@ + ops + ";"@
    } else if m == "push"@ {
        "stack.push("@ + ops + ");"@
    } else if m == "pop"@ {
        ops + " = stack.pop();"@
    } else if m == "mov"@ || m == "movq"@ || m == "movd"@ || m == "lea"@ {
        let (d, s) = operands(ops, "src"@);
        d + " = "@ + s + ";"@
    } else if m == "xor"@ {
        let (a, b) = operands(ops, "b"@);
        if a == b {
            a + " = 0;"@
        } else {
            a + " ^= "@ + b + ";"@
        }
    } else if is_arith(m) {
        let (a, b) = operands(ops, "b"@);
        a + " "@ + arith_op(m) + " "@ + b + ";"@
    } else if m == "cmp"@ || m == "test"@ {
        "flags = compare("@ + ops + ");"@
    } else if m == "nop"@ {
        "/* nop */"@
    } else if m == "int3"@ || m == "ud2"@ {
        "abort(); // trap"@
    } else if m == "syscall"@ || m == "sysenter"@ || m == "svc"@ {
        "syscall();"@
    } else {
        inline_stmt_open() + m + " "@ + ops + "\");"@
    }
}

/// The opening of the inline-assembly fallback statement: `a`, `s`, `m`, `(`, `"`.
pub open spec fn inline_stmt_open() -> Seq<char> {
    seq!['a', 's', 'm', '(', '"']
}

/// What one trimmed, non-comment line becomes.
pub open spec fn render_body(t: Seq<char>) -> Seq<char> {
    if is_hexdump(t) {
        "// bytes: "@ + t
    } else {
        match parse_insn(t) {
            Some((m, ops)) => spec_translate(lower_seq(m), ops),
            None => "// "@ + t,
        }
    }
}

/// What one input line adds to the output (nothing for blank and `;` lines).
pub open spec fn render_line(line: Seq<char>) -> Seq<char> {
    let t = trim(line);
    if t.len() == 0 || t[0] == ';' {
        seq![]
    } else {
        "\n  "@ + render_body(t)
    }
}

/// The rendered lines, in order.
pub open spec fn render_all(ls: Seq<Seq<char>>) -> Seq<char>
    decreases ls.len(),
{
    if ls.len() == 0 {
        seq![]
    } else {
        render_all(ls.drop_last()) + render_line(ls.last())
    }
}

/// At most the first `n` items.
pub open spec fn first_lines(ls: Seq<Seq<char>>, n: nat) -> Seq<Seq<char>> {
    if ls.len() <= n {
        ls
    } else {
        ls.take(n as int)
    }
}

/// The pseudocode for a function named `name` whose assembly listing is `listing`:
/// its first 80 lines, translated one by one, inside `void name() { ... }`.
pub open spec fn spec_pseudocode(listing: Seq<char>, name: Seq<char>) -> Seq<char> {
    "void "@ + name + "() {"@ + render_all(first_lines(spec_lines(listing), 80)) + "\n}"@
}

// ---------------------------------------------------------------------------
// One statement per kept line
// ---------------------------------------------------------------------------

/// The text holds no line feed.
pub open spec fn single_line(s: Seq<char>) -> bool {
    forall|i: int| 0 <= i < s.len() ==> s[i] != '\n'
}

/// The number of line feeds in the text.
pub open spec fn line_feeds(s: Seq<char>) -> nat
    decreases s.len(),
{
    if s.len() == 0 {
        0
    } else {
        line_feeds(s.drop_last()) + if s.last() == '\n' { 1nat } else { 0nat }
    }
}

/// A listing line that yields a statement: not blank and not a `;` comment.
pub open spec fn kept_line(line: Seq<char>) -> bool {
    trim(line).len() > 0 && trim(line)[0] != ';'
}

/// How many of the lines yield a statement.
pub open spec fn kept_count(ls: Seq<Seq<char>>) -> nat
    decreases ls.len(),
{
    if ls.len() == 0 {
        0
    } else {
        kept_count(ls.drop_last()) + if kept_line(ls.last()) { 1nat } else { 0nat }
    }
}

proof fn lemma_line_feeds_concat(a: Seq<char>, b: Seq<char>)
    ensures
        line_feeds(a + b) == line_feeds(a) + line_feeds(b),
    decreases b.len(),
{
    if b.len() == 0 {
        assert(a + b =~= a);
    } else {
        lemma_line_feeds_concat(a, b.drop_last());
        assert((a + b).drop_last() =~= a + b.drop_last());
    }
}

proof fn lemma_single_line_feeds(s: Seq<char>)
    requires
        single_line(s),
    ensures
        line_feeds(s) == 0,
    decreases s.len(),
{
    if s.len() > 0 {
        lemma_single_line_feeds(s.drop_last());
    }
}

proof fn lemma_single_concat(a: Seq<char>, b: Seq<char>)
    requires
        single_line(a),
        single_line(b),
    ensures
        single_line(a + b),
{
    assert forall|i: int| 0 <= i < (a + b).len() implies (a + b)[i] != '\n' by {
        if i >= a.len() {
            assert((a + b)[i] == b[i - a.len()]);
        }
    }
}

proof fn lemma_single_subrange(s: Seq<char>, i: int, j: int)
    requires
        single_line(s),
        0 <= i <= j <= s.len(),
    ensures
        single_line(s.subrange(i, j)),
{
    assert forall|k: int| 0 <= k < j - i implies s.subrange(i, j)[k] != '\n' by {
        assert(s.subrange(i, j)[k] == s[i + k]);
    }
}

proof fn lemma_trim_single(s: Seq<char>)
    requires
        single_line(s),
    ensures
        single_line(crate::text::trim_start(s)),
        single_line(crate::text::trim_end(s)),
        single_line(trim(s)),
    decreases s.len(),
{
    if s.len() > 0 {
        lemma_single_subrange(s, 1, s.len() as int);
        assert(s.drop_first() =~= s.subrange(1, s.len() as int));
        lemma_trim_single(s.drop_first());
        lemma_single_subrange(s, 0, s.len() - 1);
        assert(s.drop_last() =~= s.subrange(0, s.len() - 1));
        lemma_trim_single(s.drop_last());
    }
    let t = crate::text::trim_start(s);
    lemma_trim_end_single(t);
}

proof fn lemma_trim_end_single(s: Seq<char>)
    requires
        single_line(s),
    ensures
        single_line(crate::text::trim_end(s)),
    decreases s.len(),
{
    if s.len() > 0 {
        lemma_single_subrange(s, 0, s.len() - 1);
        assert(s.drop_last() =~= s.subrange(0, s.len() - 1));
        lemma_trim_end_single(s.drop_last());
    }
}

proof fn lemma_line_end_clear(s: Seq<char>, i: int)
    requires
        0 <= i <= s.len(),
    ensures
        i <= line_end(s, i) <= s.len(),
        forall|k: int| i <= k < line_end(s, i) ==> s[k] != '\n',
    decreases s.len() - i,
{
    if i < s.len() && s[i] != '\n' {
        lemma_line_end_clear(s, i + 1);
    }
}

proof fn lemma_lines_single(s: Seq<char>, i: int)
    ensures
        forall|k: int| 0 <= k < lines_from(s, i).len() ==> single_line(#[trigger] lines_from(s, i)[k]),
    decreases s.len() + 1 - i,
{
    if 0 <= i < s.len() {
        lemma_line_end_clear(s, i);
        let e = line_end(s, i);
        lemma_lines_single(s, e + 1);
        let first = s.subrange(i, e);
        assert(single_line(first)) by {
            assert forall|k: int| 0 <= k < first.len() implies first[k] != '\n' by {
                assert(first[k] == s[i + k]);
            }
        }
        let ls = lines_from(s, i);
        assert forall|k: int| 0 <= k < ls.len() implies single_line(#[trigger] ls[k]) by {
            if k > 0 {
                assert(ls[k] == lines_from(s, e + 1)[k - 1]);
            }
        }
    }
}

proof fn lemma_lower_single(s: Seq<char>)
    requires
        single_line(s),
    ensures
        single_line(lower_seq(s)),
{
    assert forall|i: int| 0 <= i < lower_seq(s).len() implies lower_seq(s)[i] != '\n' by {
        let c = s[i];
        if 'A' <= c && c <= 'Z' {
            assert((c as u8) as u32 == c as u32);
            assert(((((c as u8) + 32) as u8) as char) as u32 == (c as u32) + 32);
        }
    }
}

proof fn lemma_operands_single(ops: Seq<char>, dflt: Seq<char>)
    requires
        single_line(ops),
        single_line(dflt),
    ensures
        single_line(operands(ops, dflt).0),
        single_line(operands(ops, dflt).1),
{
    match find_seq(ops, seq![',']) {
        Some(k) => {
            crate::text::lemma_find_from_bounds(ops, seq![','], 0);
            lemma_single_subrange(ops, 0, k);
            lemma_single_subrange(ops, k + 1, ops.len() as int);
            lemma_trim_single(ops.subrange(0, k));
            lemma_trim_single(ops.subrange(k + 1, ops.len() as int));
        },
        None => {
            lemma_trim_single(ops);
        },
    }
}

proof fn lemma_skip_ws_nonneg(s: Seq<char>, i: int)
    ensures
        0 <= i ==> skip_ws(s, i) >= 0,
    decreases s.len() - i,
{
    if 0 <= i < s.len() && is_space(s[i]) {
        lemma_skip_ws_nonneg(s, i + 1);
    }
}

proof fn lemma_render_body_single(t: Seq<char>)
    requires
        single_line(t),
    ensures
        single_line(render_body(t)),
{
    reveal_strlit("return;");
    reveal_strlit("call(");
    reveal_strlit(");");
    reveal_strlit("goto ");
    reveal_strlit(";");
    reveal_strlit("if (ZF) goto ");
    reveal_strlit("if (!ZF) goto ");
    reveal_strlit("if (greater) goto ");
    reveal_strlit("if (less) goto ");
    reveal_strlit("stack.push(");
    reveal_strlit(" = stack.pop();");
    reveal_strlit(" = ");
    reveal_strlit("src");
    reveal_strlit(" = 0;");
    reveal_strlit("b");
    reveal_strlit(" ^= ");
    reveal_strlit(" ");
    reveal_strlit("+=");
    reveal_strlit("-=");
    reveal_strlit("&=");
    reveal_strlit("|=");
    reveal_strlit("<<=");
    reveal_strlit(">>=");
    reveal_strlit("*=");
    reveal_strlit("/=");
    reveal_strlit("=");
    reveal_strlit("flags = compare(");
    reveal_strlit("/* nop */");
    reveal_strlit("abort(); // trap");
    reveal_strlit("syscall();");
    reveal_strlit("\");");
    reveal_strlit("// bytes: ");
    reveal_strlit("// ");
    if is_hexdump(t) {
        lemma_single_concat("// bytes: "@, t);
    } else {
        match parse_insn(t) {
            Some((m, ops)) => {
                let j = mnemonic_start(t);
                let e = alpha_run_end(t, j);
                lemma_skip_ws_nonneg(t, hex_run_end(t, 0));
                lemma_single_subrange(t, j, e);
                lemma_single_subrange(t, e, t.len() as int);
                lemma_trim_single(t.subrange(e, t.len() as int));
                let lm = lower_seq(m);
                lemma_lower_single(m);
                lemma_operands_single(ops, "src"@);
                lemma_operands_single(ops, "b"@);
                let (d, src) = operands(ops, "src"@);
                let (a, b) = operands(ops, "b"@);
                lemma_single_concat(ops, ");"@);
                lemma_single_concat(ops, ";"@);
                lemma_single_concat("call("@, ops + ");"@);
                lemma_single_concat("goto "@, ops + ";"@);
                lemma_single_concat("if (ZF) goto "@, ops + ";"@);
                lemma_single_concat("if (!ZF) goto "@, ops + ";"@);
                lemma_single_concat("if (greater) goto "@, ops + ";"@);
                lemma_single_concat("if (less) goto "@, ops + ";"@);
                lemma_single_concat("stack.push("@, ops + ");"@);
                lemma_single_concat(ops, " = stack.pop();"@);
                lemma_single_concat(src, ";"@);
                lemma_single_concat(" = "@, src + ";"@);
                lemma_single_concat(d, " = "@ + (src + ";"@));
                lemma_single_concat(a, " = 0;"@);
                lemma_single_concat(b, ";"@);
                lemma_single_concat(" ^= "@, b + ";"@);
                lemma_single_concat(a, " ^= "@ + (b + ";"@));
                lemma_single_concat(" "@, b + ";"@);
                lemma_single_concat(arith_op(lm), " "@ + (b + ";"@));
                lemma_single_concat(" "@, arith_op(lm) + (" "@ + (b + ";"@)));
                lemma_single_concat(a, " "@ + (arith_op(lm) + (" "@ + (b + ";"@))));
                lemma_single_concat("flags = compare("@, ops + ");"@);
                lemma_single_concat(ops, "\");"@);
                lemma_single_concat(" "@, ops + "\");"@);
                lemma_single_concat(lm, " "@ + (ops + "\");"@));
                lemma_single_concat(inline_stmt_open(), lm + (" "@ + (ops + "\");"@)));
                assert(d + " = "@ + src + ";"@ =~= d + (" = "@ + (src + ";"@)));
                assert(a + " ^= "@ + b + ";"@ =~= a + (" ^= "@ + (b + ";"@)));
                assert(a + " "@ + arith_op(lm) + " "@ + b + ";"@ =~= a + (" "@ + (arith_op(lm) + (" "@
                    + (b + ";"@)))));
                assert(inline_stmt_open() + lm + " "@ + ops + "\");"@ =~= inline_stmt_open() + (lm + (" "@
                    + (ops + "\");"@))));
                assert("call("@ + ops + ");"@ =~= "call("@ + (ops + ");"@));
                assert("goto "@ + ops + ";"@ =~= "goto "@ + (ops + ";"@));
                assert("if (ZF) goto "@ + ops + ";"@ =~= "if (ZF) goto "@ + (ops + ";"@));
                assert("if (!ZF) goto "@ + ops + ";"@ =~= "if (!ZF) goto "@ + (ops + ";"@));
                assert("if (greater) goto "@ + ops + ";"@ =~= "if (greater) goto "@ + (ops + ";"@));
                assert("if (less) goto "@ + ops + ";"@ =~= "if (less) goto "@ + (ops + ";"@));
                assert("stack.push("@ + ops + ");"@ =~= "stack.push("@ + (ops + ");"@));
                assert("flags = compare("@ + ops + ");"@ =~= "flags = compare("@ + (ops + ");"@));
            },
            None => {
                lemma_single_concat("// "@, t);
            },
        }
    }
}

proof fn lemma_render_all_feeds(ls: Seq<Seq<char>>)
    requires
        forall|k: int| 0 <= k < ls.len() ==> single_line(#[trigger] ls[k]),
    ensures
        line_feeds(render_all(ls)) == kept_count(ls),
    decreases ls.len(),
{
    if ls.len() > 0 {
        let l = ls.last();
        assert(single_line(ls[ls.len() - 1]));
        lemma_render_all_feeds(ls.drop_last());
        lemma_line_feeds_concat(render_all(ls.drop_last()), render_line(l));
        if kept_line(l) {
            reveal_strlit("\n  ");
            lemma_trim_single(l);
            lemma_render_body_single(trim(l));
            lemma_single_line_feeds(render_body(trim(l)));
            lemma_line_feeds_concat("\n  "@, render_body(trim(l)));
            assert(line_feeds("\n  "@) == 1) by {
                reveal_with_fuel(line_feeds, 4);
                assert("\n  "@.drop_last().drop_last() =~= seq!['\n']);
                assert(seq!['\n'].drop_last() =~= Seq::<char>::empty());
            }
        } else {
            assert(render_line(l) =~= Seq::<char>::empty());
        }
    }
}

/// For a function name on one line, the pseudocode has one line per kept
/// listing line (among the first 80, those neither blank nor `;` comments)
/// plus the opening and the closing line, and ends with `}`.
pub proof fn law_pseudocode_lines(listing: Seq<char>, name: Seq<char>)
    requires
        single_line(name),
    ensures
        line_feeds(spec_pseudocode(listing, name)) == kept_count(first_lines(spec_lines(listing), 80)) + 1,
        spec_pseudocode(listing, name).last() == '}',
        kept_count(first_lines(spec_lines(listing), 80)) <= 80,
{
    reveal_strlit("void ");
    reveal_strlit("() {");
    reveal_strlit("\n}");
    let ls = first_lines(spec_lines(listing), 80);
    lemma_lines_single(listing, 0);
    assert forall|k: int| 0 <= k < ls.len() implies single_line(#[trigger] ls[k]) by {
        assert(ls[k] == spec_lines(listing)[k]);
    }
    lemma_render_all_feeds(ls);
    lemma_kept_count_le(ls);
    let head = "void "@ + name + "() {"@;
    lemma_single_concat("void "@, name);
    lemma_single_concat("void "@ + name, "() {"@);
    lemma_single_line_feeds(head);
    lemma_line_feeds_concat(head, render_all(ls));
    lemma_line_feeds_concat(head + render_all(ls), "\n}"@);
    assert(line_feeds("\n}"@) == 1) by {
        reveal_with_fuel(line_feeds, 3);
        assert("\n}"@.drop_last() =~= seq!['\n']);
        assert(seq!['\n'].drop_last() =~= Seq::<char>::empty());
    }
}

proof fn lemma_kept_count_le(ls: Seq<Seq<char>>)
    ensures
        kept_count(ls) <= ls.len(),
    decreases ls.len(),
{
    if ls.len() > 0 {
        lemma_kept_count_le(ls.drop_last());
    }
}

// ---------------------------------------------------------------------------
// Executable code
// ---------------------------------------------------------------------------

fn skip_ws_exec(s: &[char], i: usize) -> (r: usize)
    requires
        i <= s@.len(),
    ensures
        r == skip_ws(s@, i as int),
        i <= r <= s@.len(),
        r < s@.len() ==> !is_space(s@[r as int]),
{
    let mut k = i;
    while k < s.len() && space(s[k])
        invariant
            i <= k <= s@.len(),
            skip_ws(s@, i as int) == skip_ws(s@, k as int),
        decreases s@.len() - k,
    {
        k += 1;
    }
    k
}

fn token_end_exec(s: &[char], i: usize) -> (r: usize)
    requires
        i <= s@.len(),
    ensures
        r == token_end(s@, i as int),
        i <= r <= s@.len(),
        i < s@.len() && !is_space(s@[i as int]) ==> r > i,
{
    let mut k = i;
    while k < s.len() && !space(s[k])
        invariant
            i <= k <= s@.len(),
            token_end(s@, i as int) == token_end(s@, k as int),
        decreases s@.len() - k,
    {
        k += 1;
    }
    k
}

fn hex(c: char) -> (r: bool)
    ensures
        r == is_hex(c),
{
    ('a' <= c && c <= 'f') || ('A' <= c && c <= 'F') || ('0' <= c && c <= '9')
}

fn alpha(c: char) -> (r: bool)
    ensures
        r == is_alpha(c),
{
    ('a' <= c && c <= 'z') || ('A' <= c && c <= 'Z')
}

fn hex_run_end_exec(s: &[char], i: usize) -> (r: usize)
    requires
        i <= s@.len(),
    ensures
        r == hex_run_end(s@, i as int),
        i <= r <= s@.len(),
{
    let mut k = i;
    while k < s.len() && hex(s[k])
        invariant
            i <= k <= s@.len(),
            hex_run_end(s@, i as int) == hex_run_end(s@, k as int),
        decreases s@.len() - k,
    {
        k += 1;
    }
    k
}

fn alpha_run_end_exec(s: &[char], i: usize) -> (r: usize)
    requires
        i <= s@.len(),
    ensures
        r == alpha_run_end(s@, i as int),
        i <= r <= s@.len(),
{
    let mut k = i;
    while k < s.len() && alpha(s[k])
        invariant
            i <= k <= s@.len(),
            alpha_run_end(s@, i as int) == alpha_run_end(s@, k as int),
        decreases s@.len() - k,
    {
        k += 1;
    }
    k
}

fn hexdump(t: &[char]) -> (r: bool)
    ensures
        r == is_hexdump(t@),
{
    let n = t.len();
    let mut i: usize = 0;
    while i < n
        invariant
            i <= n,
            n == t@.len(),
            is_hexdump(t@) == byte_tokens_from(t@, i as int),
        decreases n - i,
    {
        let a = skip_ws_exec(t, i);
        if a >= n {
            return true;
        }
        let b = token_end_exec(t, a);
        proof {
            assert(b > a);
            assert(byte_tokens_from(t@, i as int) == (is_byte_token(t@.subrange(a as int, b as int))
                && byte_tokens_from(t@, b as int)));
            if b - a == 2 {
                assert(t@.subrange(a as int, b as int)[0] == t@[a as int]);
                assert(t@.subrange(a as int, b as int)[1] == t@[a + 1]);
            }
        }
        if !(b - a == 2 && (hex(t[a]) || t[a] == '+') && hex(t[a + 1])) {
            return false;
        }
        i = b;
    }
    true
}

fn digit_before(t: &[char], h: usize) -> (r: bool)
    requires
        h <= t@.len(),
    ensures
        r == has_digit_before(t@, h as int),
{
    let mut k: usize = 0;
    while k < h
        invariant
            k <= h <= t@.len(),
            forall|q: int| 0 <= q < k ==> !('0' <= t@[q] && t@[q] <= '9'),
        decreases h - k,
    {
        if '0' <= t[k] && t[k] <= '9' {
            return true;
        }
        k += 1;
    }
    false
}

/// The mnemonic and operands of a trimmed instruction line, if it has a mnemonic.
fn parse_insn_exec(t: &[char]) -> (r: Option<(Vec<char>, Vec<char>)>)
    ensures
        match parse_insn(t@) {
            Some((m, ops)) => r matches Some((rm, rops)) && rm@ == m && rops@ == ops,
            None => r is None,
        },
{
    let n = t.len();
    let h = hex_run_end_exec(t, 0);
    let j0 = skip_ws_exec(t, h);
    let j = if 0 < h && h < n && digit_before(t, h) && space(t[h]) && j0 < n && alpha(t[j0]) {
        j0
    } else {
        0
    };
    assert(j == mnemonic_start(t@));
    let e = alpha_run_end_exec(t, j);
    if e <= j {
        return None;
    }
    let m = slice_chars(t, j, e);
    let rest = slice_chars(t, e, n);
    let ops = trim_chars(rest.as_slice());
    Some((m, ops))
}

/// The two operands of an instruction; the second is `dflt` without a comma.
fn operands_exec(ops: &[char], dflt: &str) -> (r: (Vec<char>, Vec<char>))
    ensures
        r.0@ == operands(ops@, dflt@).0,
        r.1@ == operands(ops@, dflt@).1,
{
    let comma: [char; 1] = [','];
    let cs: &[char] = &comma;
    assert(cs@ == seq![',']);
    match find_chars(ops, cs) {
        Some(k) => {
            proof {
                crate::text::lemma_find_from_bounds(ops@, cs@, 0);
                assert(find_seq(ops@, cs@) == Some(k as int));
                assert(cs@.len() == 1);
                assert(k + 1 <= ops@.len());
            }
            let len = ops.len();
            assert(k < len);
            let a = slice_chars(ops, 0, k);
            let b = slice_chars(ops, k + 1, len);
            (trim_chars(a.as_slice()), trim_chars(b.as_slice()))
        },
        None => (trim_chars(ops), str_chars(dflt)),
    }
}

fn arith_op_exec(m: &[char]) -> (r: &'static str)
    ensures
        r@ == arith_op(m@),
{
    if eq_str(m, "add") {
        "+="
    } else if eq_str(m, "sub") {
        "-="
    } else if eq_str(m, "and") {
        "&="
    } else if eq_str(m, "or") {
        "|="
    } else if eq_str(m, "shl") {
        "<<="
    } else if eq_str(m, "shr") {
        ">>="
    } else if eq_str(m, "imul") || eq_str(m, "mul") {
        "*="
    } else if eq_str(m, "div") {
        "/="
    } else {
        "="
    }
}

/// Appends the pseudocode statement for mnemonic `m` (lowercase) and operands `ops`.
fn translate_into(out: &mut String, m: &[char], ops: &[char])
    ensures
        final(out)@ == old(out)@ + spec_translate(m@, ops@),
{
    if eq_str(m, "ret") || eq_str(m, "retn") {
        push_str(out, "return;");
    } else if eq_str(m, "call") {
        push_str(out, "call(");
        push_chars(out, ops);
        push_str(out, ");");
    } else if eq_str(m, "jmp") {
        push_str(out, "goto ");
        push_chars(out, ops);
        push_str(out, ";");
    } else if eq_str(m, "je") || eq_str(m, "jz") {
        push_str(out, "if (ZF) goto ");
        push_chars(out, ops);
        push_str(out, ";");
    } else if eq_str(m, "jne") || eq_str(m, "jnz") {
        push_str(out, "if (!ZF) goto ");
        push_chars(out, ops);
        push_str(out, ";");
    } else if eq_str(m, "ja") || eq_str(m, "jg") {
        push_str(out, "if (greater) goto ");
        push_chars(out, ops);
        push_str(out, ";");
    } else if eq_str(m, "jb") || eq_str(m, "jl") {
        push_str(out, "if (less) goto ");
        push_chars(out, ops);
        push_str(out, ";");
    } else if eq_str(m, "push") {
        push_str(out, "stack.push(");
        push_chars(out, ops);
        push_str(out, ");");
    } else if eq_str(m, "pop") {
        push_chars(out, ops);
        push_str(out, " = stack.pop();");
    } else if eq_str(m, "mov") || eq_str(m, "movq") || eq_str(m, "movd") || eq_str(m, "lea") {
        let (d, s) = operands_exec(ops, "src");
        push_chars(out, d.as_slice());
        push_str(out, " = ");
        push_chars(out, s.as_slice());
        push_str(out, ";");
    } else if eq_str(m, "xor") {
        let (a, b) = operands_exec(ops, "b");
        if chars_eq(a.as_slice(), b.as_slice()) {
            push_chars(out, a.as_slice());
            push_str(out, " = 0;");
        } else {
            push_chars(out, a.as_slice());
            push_str(out, " ^= ");
            push_chars(out, b.as_slice());
            push_str(out, ";");
        }
    } else if eq_str(m, "add") || eq_str(m, "sub") || eq_str(m, "and") || eq_str(m, "or")
        || eq_str(m, "shl") || eq_str(m, "shr") || eq_str(m, "imul") || eq_str(m, "mul")
        || eq_str(m, "div") {
        let (a, b) = operands_exec(ops, "b");
        push_chars(out, a.as_slice());
        push_str(out, " ");
        push_str(out, arith_op_exec(m));
        push_str(out, " ");
        push_chars(out, b.as_slice());
        push_str(out, ";");
    } else if eq_str(m, "cmp") || eq_str(m, "test") {
        push_str(out, "flags = compare(");
        push_chars(out, ops);
        push_str(out, ");");
    } else if eq_str(m, "nop") {
        push_str(out, "/* nop */");
    } else if eq_str(m, "int3") || eq_str(m, "ud2") {
        push_str(out, "abort(); // trap");
    } else if eq_str(m, "syscall") || eq_str(m, "sysenter") || eq_str(m, "svc") {
        push_str(out, "syscall();");
    } else {
        push_char(out, 'a');
        push_char(out, 's');
        push_char(out, 'm');
        push_char(out, '(');
        push_char(out, '"');
        push_chars(out, m);
        push_str(out, " ");
        push_chars(out, ops);
        push_str(out, "\");");
    }
    proof {
        assert(final(out)@ =~= old(out)@ + spec_translate(m@, ops@));
    }
}

/// Appends the pseudocode statement for mnemonic `mnem` and operands `ops`.
pub fn translate(mnem: &str, ops: &str) -> (r: String)
    ensures
        r@ == spec_translate(mnem@, ops@),
{
    let m = str_chars(mnem);
    let o = str_chars(ops);
    let mut out = String::new();
    translate_into(&mut out, m.as_slice(), o.as_slice());
    proof {
        assert(out@ =~= spec_translate(mnem@, ops@));
    }
    out
}

fn render_line_into(out: &mut String, line: &[char])
    ensures
        final(out)@ == old(out)@ + render_line(line@),
{
    let t = trim_chars(line);
    if t.len() == 0 || t[0] == ';' {
        proof {
            assert(final(out)@ =~= old(out)@ + render_line(line@));
        }
        return;
    }
    push_str(out, "\n  ");
    if hexdump(t.as_slice()) {
        push_str(out, "// bytes: ");
        push_chars(out, t.as_slice());
    } else {
        match parse_insn_exec(t.as_slice()) {
            Some((m, ops)) => {
                let lm = lower_chars(m.as_slice());
                translate_into(out, lm.as_slice(), ops.as_slice());
            },
            None => {
                push_str(out, "// ");
                push_chars(out, t.as_slice());
            },
        }
    }
    proof {
        assert(final(out)@ =~= old(out)@ + render_line(line@));
    }
}

/// Translates an assembly listing into readable pseudocode for the function
/// `fn_name`: the first 80 lines are kept; blank lines and `;` comments are
/// dropped; hex dumps become `// bytes:` comments; unparsable lines become
/// comments; every instruction becomes one statement.
pub fn from_assembly_preview(listing: &str, fn_name: &str) -> (r: String)
    ensures
        r@ == spec_pseudocode(listing@, fn_name@),
{
    let cs = str_chars(listing);
    let n = cs.len();
    let mut out = String::new();
    push_str(&mut out, "void ");
    push_str(&mut out, fn_name);
    push_str(&mut out, "() {");
    let ghost header = out@;
    let ghost mut done: Seq<Seq<char>> = seq![];
    let mut i: usize = 0;
    let mut count: usize = 0;
    proof {
        assert(render_all(done) =~= seq![]);
        assert(lines_from(cs@, 0) =~= done + lines_from(cs@, 0));
    }
    while i < n && count < 80
        invariant
            i <= n,
            n == cs@.len(),
            count == done.len(),
            count <= 80,
            lines_from(cs@, 0) == done + lines_from(cs@, i as int),
            out@ == header + render_all(done),
        decreases n + 1 - i,
    {
        let mut e = i;
        while e < n && cs[e] != '\n'
            invariant
                i <= e <= n,
                n == cs@.len(),
                line_end(cs@, i as int) == line_end(cs@, e as int),
            decreases n - e,
        {
            e += 1;
        }
        let line = slice_chars(cs.as_slice(), i, e);
        render_line_into(&mut out, line.as_slice());
        proof {
            let l = cs@.subrange(i as int, e as int);
            assert(lines_from(cs@, i as int) == seq![l] + lines_from(cs@, e + 1));
            assert(done.push(l).drop_last() =~= done);
            assert(render_all(done.push(l)) == render_all(done) + render_line(l));
            assert(done + lines_from(cs@, i as int) =~= done.push(l) + lines_from(cs@, e + 1));
            done = done.push(l);
        }
        count += 1;
        if e < n {
            i = e + 1;
        } else {
            proof {
                assert(lines_from(cs@, e + 1) =~= lines_from(cs@, n as int));
            }
            i = n;
        }
    }
    proof {
        if count == 80 {
            let rest = lines_from(cs@, i as int);
            assert(lines_from(cs@, 0) == done + rest);
            assert((done + rest).take(80) =~= done);
            assert(first_lines(lines_from(cs@, 0), 80) == done);
        } else {
            assert(lines_from(cs@, i as int) =~= seq![]);
            assert(lines_from(cs@, 0) =~= done);
        }
    }
    push_str(&mut out, "\n}");
    proof {
        assert(out@ =~= spec_pseudocode(listing@, fn_name@));
    }
    out
}

} // verus!
