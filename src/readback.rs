use vstd::prelude::*;
use crate::fen::{
    board_scan, castle_line, castle_list, castling_text, describe, en_passant_text,
    header, metadata, metadata_error, other_head, other_tail, other_text, side_name, utf8_len,
};
use crate::text::{is_ws, join, lemma_split_on_nonempty, split_on, words, words_state};

verus! {

proof fn lemma_split_concat(x: Seq<char>, y: Seq<char>, sep: char)
    ensures
        split_on(x + seq![sep] + y, sep) == split_on(x, sep) + split_on(y, sep),
    decreases y.len(),
{
    let s = x + seq![sep] + y;
    if y.len() == 0 {
        assert(s.drop_last() =~= x);
        assert(split_on(s, sep) =~= split_on(x, sep) + split_on(y, sep));
    } else {
        assert(s.drop_last() =~= x + seq![sep] + y.drop_last());
        lemma_split_concat(x, y.drop_last(), sep);
        lemma_split_on_nonempty(y.drop_last(), sep);
        lemma_split_on_nonempty(x, sep);
        assert(split_on(s, sep) =~= split_on(x, sep) + split_on(y, sep));
    }
}

proof fn lemma_split_single(y: Seq<char>, sep: char)
    requires
        !y.contains(sep),
    ensures
        split_on(y, sep) == seq![y],
    decreases y.len(),
{
    if y.len() > 0 {
        assert(!y.drop_last().contains(sep)) by {
            if y.drop_last().contains(sep) {
                let i = choose|i: int| 0 <= i < y.drop_last().len() && y.drop_last()[i] == sep;
                assert(y[i] == sep);
            }
        }
        lemma_split_single(y.drop_last(), sep);
        assert(y.last() != sep) by {
            assert(y[y.len() - 1] == y.last());
        }
        assert(y.drop_last().push(y.last()) =~= y);
        assert(split_on(y, sep) =~= seq![y]);
    } else {
        assert(y =~= Seq::<char>::empty());
        assert(split_on(y, sep) =~= seq![y]);
    }
}

/// Splitting pieces joined by a separator they do not hold gives the pieces back.
proof fn lemma_split_join(pieces: Seq<Seq<char>>, sep: char)
    requires
        pieces.len() >= 1,
        forall|i: int| 0 <= i < pieces.len() ==> !(#[trigger] pieces[i]).contains(sep),
    ensures
        split_on(join(pieces, seq![sep]), sep) == pieces,
    decreases pieces.len(),
{
    if pieces.len() == 1 {
        lemma_split_single(pieces[0], sep);
        assert(seq![pieces[0]] =~= pieces);
    } else {
        let p = pieces.drop_last();
        assert forall|i: int| 0 <= i < p.len() implies !(#[trigger] p[i]).contains(sep) by {
            assert(p[i] == pieces[i]);
        }
        lemma_split_join(p, sep);
        lemma_split_concat(join(p, seq![sep]), pieces.last(), sep);
        assert(pieces[pieces.len() - 1] == pieces.last());
        lemma_split_single(pieces.last(), sep);
        assert(split_on(join(pieces, seq![sep]), sep) =~= pieces);
    }
}

proof fn lemma_join_concat(a: Seq<Seq<char>>, b: Seq<Seq<char>>, sep: Seq<char>)
    requires
        a.len() >= 1,
        b.len() >= 1,
    ensures
        join(a + b, sep) == join(a, sep) + sep + join(b, sep),
    decreases b.len(),
{
    if b.len() == 1 {
        assert((a + b).drop_last() =~= a);
        assert((a + b).last() == b[0]);
    } else {
        lemma_join_concat(a, b.drop_last(), sep);
        assert((a + b).drop_last() =~= a + b.drop_last());
        assert((a + b).last() == b.last());
        assert(join(a + b, sep) =~= join(a, sep) + sep + join(b, sep));
    }
}

/// The castling symbol that a castling statement line stands for.
pub open spec fn castle_symbol(line: Seq<char>) -> Option<char> {
    if line == "- White can castle short"@ {
        Some('K')
    } else if line == "- White can castle long"@ {
        Some('Q')
    } else if line == "- Black can castle short"@ {
        Some('k')
    } else if line == "- Black can castle long"@ {
        Some('q')
    } else {
        None
    }
}

/// Reads the castling statements upward from line `i`: the castling token, and the
/// index of the line that opens the castling block.
pub open spec fn read_castles(lines: Seq<Seq<char>>, i: int) -> (Seq<char>, int)
    decreases i + 1,
{
    if i < 0 {
        (Seq::empty(), -1)
    } else if lines[i] == "No castling available"@ {
        ("-"@, i)
    } else if lines[i] == "Castling options are:"@ {
        (Seq::empty(), i)
    } else {
        match castle_symbol(lines[i]) {
            Some(c) => {
                let (t, h) = read_castles(lines, i - 1);
                (t.push(c), h)
            },
            None => (Seq::empty(), -1),
        }
    }
}

/// Re-derives the metadata tokens (side to move, castling, en passant, halfmove
/// clock, fullmove number) from a description, reading its lines up from the end.
pub open spec fn read_metadata(desc: Seq<char>) -> Seq<Seq<char>> {
    let l = split_on(desc, '\n');
    let n = l.len() as int;
    let f = l[n - 2].subrange(18, l[n - 2].len() as int);
    let h = l[n - 3].subrange(37, l[n - 3].len() as int);
    let ep = if l[n - 6] == "No en passant available"@ {
        "-"@
    } else {
        l[n - 6].subrange(24, l[n - 6].len() as int)
    };
    let (castles, first) = read_castles(l, n - 8);
    let side = if l[first - 2] == "Its white's turn"@ {
        "w"@
    } else {
        "b"@
    };
    seq![side, castles, ep, h, f]
}

pub open spec fn castle_pieces(s: Seq<char>, n: int) -> Seq<Seq<char>>
    decreases n,
{
    if n <= 0 {
        Seq::empty()
    } else {
        castle_pieces(s, n - 1).push("- "@ + castle_line(s[n - 1])->Some_0)
    }
}

pub open spec fn ct_pieces(tok: Seq<char>) -> Seq<Seq<char>> {
    if tok == "-"@ {
        seq!["No castling available"@]
    } else {
        seq!["Castling options are:"@] + castle_pieces(tok, tok.len() as int)
    }
}

pub open spec fn ep_line(ep: Seq<char>) -> Seq<char> {
    if ep == "-"@ {
        "No en passant available"@
    } else {
        "En passant available on "@ + ep
    }
}

pub open spec fn other_pieces(meta: Seq<Seq<char>>) -> Seq<Seq<char>> {
    seq!["### Other"@, "Its "@ + side_name(meta[0][0]) + "'s turn"@, Seq::empty()] + ct_pieces(
        meta[1],
    ) + seq![
        Seq::empty(),
        ep_line(meta[2]),
        Seq::empty(),
        "Move clocks:"@,
        "- Halfmove clock (for 50-move rule): "@ + meta[3],
        "- Fullmove clock: "@ + meta[4],
        Seq::empty(),
    ]
}

proof fn lemma_castle_text(s: Seq<char>, n: int)
    requires
        1 <= n <= s.len(),
        castle_list(s, n) is Ok,
    ensures
        castle_list(s, n)->Ok_0 == join(castle_pieces(s, n), "\n"@) + "\n"@,
        castle_pieces(s, n).len() == n,
        forall|j: int| 0 <= j < n ==> (#[trigger] castle_line(s[j])) is Some,
        forall|j: int|
            0 <= j < n ==> (#[trigger] castle_pieces(s, n)[j]) == "- "@ + castle_line(s[j])->Some_0,
    decreases n,
{
    assert(castle_list(s, n - 1) is Ok);
    assert(castle_line(s[n - 1]) is Some);
    if n > 1 {
        lemma_castle_text(s, n - 1);
        assert(castle_pieces(s, n).drop_last() == castle_pieces(s, n - 1));
        assert(castle_pieces(s, n - 1).len() == n - 1);
    } else {
        assert(castle_list(s, 0) == Ok::<Seq<char>, char>(Seq::empty()));
        assert(castle_pieces(s, 0) =~= Seq::<Seq<char>>::empty());
        assert(castle_pieces(s, 1) =~= seq!["- "@ + castle_line(s[0])->Some_0]);
        assert(castle_list(s, 1)->Ok_0 =~= join(castle_pieces(s, 1), "\n"@) + "\n"@);
    }
    assert forall|j: int| 0 <= j < n implies (#[trigger] castle_line(s[j])) is Some by {
        if j < n - 1 {
            assert(castle_line(s[j]) is Some);
        }
    }
    assert forall|j: int|
        0 <= j < n implies (#[trigger] castle_pieces(s, n)[j]) == "- "@ + castle_line(
        s[j],
    )->Some_0 by {
        if j < n - 1 {
            assert(castle_pieces(s, n)[j] == castle_pieces(s, n - 1)[j]);
        } else {
            assert(castle_pieces(s, n - 1).len() == n - 1);
            assert(castle_pieces(s, n)[j] == "- "@ + castle_line(s[j])->Some_0);
        }
    }
}

proof fn lemma_words_state_no_ws(s: Seq<char>)
    ensures
        forall|i: int, j: int|
            0 <= i < words_state(s).0.len() && 0 <= j < words_state(s).0[i].len() ==> !is_ws(
                #[trigger] words_state(s).0[i][j],
            ),
        forall|j: int| 0 <= j < words_state(s).1.len() ==> !is_ws(#[trigger] words_state(s).1[j]),
    decreases s.len(),
{
    if s.len() > 0 {
        lemma_words_state_no_ws(s.drop_last());
        let (done, cur) = words_state(s.drop_last());
        assert forall|i: int, j: int|
            0 <= i < words_state(s).0.len() && 0 <= j < words_state(s).0[i].len() implies !is_ws(
            #[trigger] words_state(s).0[i][j],
        ) by {
            if i < done.len() {
                assert(words_state(s).0[i] == done[i]);
            }
        }
        assert forall|j: int| 0 <= j < words_state(s).1.len() implies !is_ws(
            #[trigger] words_state(s).1[j],
        ) by {
            if j < cur.len() {
                assert(words_state(s).1[j] == cur[j]);
            }
        }
    }
}

/// No word of `s` holds a line break.
proof fn lemma_words_no_newline(s: Seq<char>)
    ensures
        forall|i: int| 0 <= i < words(s).len() ==> !(#[trigger] words(s)[i]).contains('\n'),
{
    lemma_words_state_no_ws(s);
    assert forall|i: int| 0 <= i < words(s).len() implies !(#[trigger] words(s)[i]).contains(
        '\n',
    ) by {
        if words(s)[i].contains('\n') {
            let j = choose|j: int| 0 <= j < words(s)[i].len() && words(s)[i][j] == '\n';
            let (done, cur) = words_state(s);
            if i < done.len() {
                assert(words(s)[i] == done[i]);
                assert(!is_ws(done[i][j]));
            } else {
                assert(words(s)[i] == cur);
                assert(!is_ws(cur[j]));
            }
        }
    }
}

proof fn lemma_utf8_len_at_least_len(s: Seq<char>)
    ensures
        utf8_len(s) >= s.len(),
    decreases s.len(),
{
    if s.len() > 0 {
        lemma_utf8_len_at_least_len(s.drop_last());
    }
}

proof fn lemma_ct_pieces(tok: Seq<char>)
    requires
        tok.len() >= 1,
        castling_text(tok) is Ok,
    ensures
        castling_text(tok)->Ok_0 == join(ct_pieces(tok), "\n"@) + "\n"@,
{
    reveal_strlit("\n");
    if tok == "-"@ {
        reveal_strlit("No castling available\n");
        reveal_strlit("No castling available");
        assert(castling_text(tok)->Ok_0 =~= join(ct_pieces(tok), "\n"@) + "\n"@);
    } else {
        lemma_castle_text(tok, tok.len() as int);
        let cp = castle_pieces(tok, tok.len() as int);
        lemma_join_concat(seq!["Castling options are:"@], cp, "\n"@);
        reveal_strlit("Castling options are:\n");
        reveal_strlit("Castling options are:");
        assert(castling_text(tok)->Ok_0 =~= join(ct_pieces(tok), "\n"@) + "\n"@);
    }
}

proof fn lemma_join_push(p: Seq<Seq<char>>, x: Seq<char>, sep: Seq<char>)
    requires
        p.len() >= 1,
    ensures
        join(p.push(x), sep) == join(p, sep) + sep + x,
{
    assert(p.push(x).drop_last() =~= p);
}

proof fn lemma_literal_splits()
    ensures
        "\n### Other\n"@ == "\n"@ + "### Other"@ + "\n"@,
        "'s turn\n\n"@ == "'s turn"@ + "\n"@ + "\n"@,
        "\nMove clocks:\n- Halfmove clock (for 50-move rule): "@ == "\n"@ + "Move clocks:"@
            + "\n"@ + "- Halfmove clock (for 50-move rule): "@,
        "\n- Fullmove clock: "@ == "\n"@ + "- Fullmove clock: "@,
        "No en passant available\n"@ == "No en passant available"@ + "\n"@,
{
    reveal_strlit("\n");
    assert("\n### Other\n"@ =~= "\n"@ + "### Other"@ + "\n"@) by {
        reveal_strlit("\n### Other\n");
        reveal_strlit("### Other");
    }
    assert("'s turn\n\n"@ =~= "'s turn"@ + "\n"@ + "\n"@) by {
        reveal_strlit("'s turn\n\n");
        reveal_strlit("'s turn");
    }
    assert("\nMove clocks:\n- Halfmove clock (for 50-move rule): "@ =~= "\n"@ + "Move clocks:"@
        + "\n"@ + "- Halfmove clock (for 50-move rule): "@) by {
        reveal_strlit("\nMove clocks:\n- Halfmove clock (for 50-move rule): ");
        reveal_strlit("Move clocks:");
        reveal_strlit("- Halfmove clock (for 50-move rule): ");
    }
    assert("\n- Fullmove clock: "@ =~= "\n"@ + "- Fullmove clock: "@) by {
        reveal_strlit("\n- Fullmove clock: ");
        reveal_strlit("- Fullmove clock: ");
    }
    assert("No en passant available\n"@ =~= "No en passant available"@ + "\n"@) by {
        reveal_strlit("No en passant available\n");
        reveal_strlit("No en passant available");
    }
}

proof fn lemma_other_head(meta: Seq<Seq<char>>)
    ensures
        other_head(meta) == "\n"@ + join(
            seq!["### Other"@, "Its "@ + side_name(meta[0][0]) + "'s turn"@, Seq::empty()],
            "\n"@,
        ) + "\n"@,
{
    let nl = "\n"@;
    lemma_literal_splits();
    let turn = "Its "@ + side_name(meta[0][0]) + "'s turn"@;
    let a1 = seq!["### Other"@];
    let a2 = a1.push(turn);
    lemma_join_push(a1, turn, nl);
    lemma_join_push(a2, Seq::empty(), nl);
    assert(a2.push(Seq::<char>::empty()) =~= seq!["### Other"@, turn, Seq::empty()]);
    assert(other_head(meta) =~= nl + join(seq!["### Other"@, turn, Seq::empty()], nl) + nl);
}

pub open spec fn tail_pieces(meta: Seq<Seq<char>>) -> Seq<Seq<char>> {
    seq![
        Seq::empty(),
        ep_line(meta[2]),
        Seq::empty(),
        "Move clocks:"@,
        "- Halfmove clock (for 50-move rule): "@ + meta[3],
        "- Fullmove clock: "@ + meta[4],
        Seq::empty(),
    ]
}

#[verifier::rlimit(100)]
proof fn lemma_other_tail(meta: Seq<Seq<char>>)
    ensures
        other_tail(meta) == join(tail_pieces(meta), "\n"@),
{
    let nl = "\n"@;
    lemma_literal_splits();
    let e = Seq::<char>::empty();
    let hl = "- Halfmove clock (for 50-move rule): "@ + meta[3];
    let fl = "- Fullmove clock: "@ + meta[4];
    let c1 = seq![e];
    let c2 = c1.push(ep_line(meta[2]));
    let c3 = c2.push(e);
    let c4 = c3.push("Move clocks:"@);
    let c5 = c4.push(hl);
    let c6 = c5.push(fl);
    lemma_join_push(c1, ep_line(meta[2]), nl);
    lemma_join_push(c2, e, nl);
    lemma_join_push(c3, "Move clocks:"@, nl);
    lemma_join_push(c4, hl, nl);
    lemma_join_push(c5, fl, nl);
    lemma_join_push(c6, e, nl);
    let epl = ep_line(meta[2]);
    let mc = "Move clocks:"@;
    assert(join(c1, nl) == e);
    assert(join(c2, nl) =~= nl + epl);
    assert(join(c3, nl) =~= nl + epl + nl);
    assert(join(c4, nl) =~= nl + epl + nl + nl + mc);
    assert(join(c5, nl) =~= nl + epl + nl + nl + mc + nl + hl);
    assert(join(c6, nl) =~= nl + epl + nl + nl + mc + nl + hl + nl + fl);
    assert(join(c6.push(e), nl) =~= nl + epl + nl + nl + mc + nl + hl + nl + fl + nl);
    assert(c6.push(e) =~= tail_pieces(meta));
    assert(en_passant_text(meta[2]) =~= epl + nl);
    assert(other_tail(meta) =~= nl + epl + nl + nl + mc + nl + hl + nl + fl + nl);
}

proof fn lemma_other_text_lines(meta: Seq<Seq<char>>, ct: Seq<char>)
    requires
        meta.len() == 5,
        meta[1].len() >= 1,
        castling_text(meta[1]) == Ok::<Seq<char>, Seq<char>>(ct),
    ensures
        other_text(meta, ct) == "\n"@ + join(other_pieces(meta), "\n"@),
{
    let nl = "\n"@;
    lemma_ct_pieces(meta[1]);
    lemma_other_head(meta);
    lemma_other_tail(meta);
    let a = seq!["### Other"@, "Its "@ + side_name(meta[0][0]) + "'s turn"@, Seq::empty()];
    let b = ct_pieces(meta[1]);
    let c = tail_pieces(meta);
    assert(b.len() >= 1);
    lemma_join_concat(a, b, nl);
    lemma_join_concat(a + b, c, nl);
    assert(other_pieces(meta) =~= a + b + c);
    assert(ct == join(b, nl) + nl);
    assert(join(other_pieces(meta), nl) == join(a, nl) + nl + join(b, nl) + nl + join(c, nl));
    let ja = join(a, nl);
    let jb = join(b, nl);
    let jc = join(c, nl);
    assert(other_text(meta, ct) == (nl + ja + nl) + (jb + nl) + jc);
    assert(other_text(meta, ct) =~= nl + (ja + nl + jb + nl + jc));
}

proof fn lemma_concat_no_nl(a: Seq<char>, b: Seq<char>)
    requires
        !a.contains('\n'),
        !b.contains('\n'),
    ensures
        !(a + b).contains('\n'),
{
    if (a + b).contains('\n') {
        let i = choose|i: int| 0 <= i < (a + b).len() && (a + b)[i] == '\n';
        if i < a.len() {
            assert(a[i] == '\n');
        } else {
            assert(b[i - a.len()] == '\n');
        }
    }
}

proof fn lemma_literals_no_nl()
    ensures
        !"### Other"@.contains('\n'),
        !"Its "@.contains('\n'),
        !"'s turn"@.contains('\n'),
        !"white"@.contains('\n'),
        !"black"@.contains('\n'),
        !"No castling available"@.contains('\n'),
        !"Castling options are:"@.contains('\n'),
        !"- "@.contains('\n'),
        !"White can castle short"@.contains('\n'),
        !"White can castle long"@.contains('\n'),
        !"Black can castle short"@.contains('\n'),
        !"Black can castle long"@.contains('\n'),
        !"No en passant available"@.contains('\n'),
        !"En passant available on "@.contains('\n'),
        !"Move clocks:"@.contains('\n'),
        !"- Halfmove clock (for 50-move rule): "@.contains('\n'),
        !"- Fullmove clock: "@.contains('\n'),
        !Seq::<char>::empty().contains('\n'),
{
    reveal_strlit("### Other");
    reveal_strlit("Its ");
    reveal_strlit("'s turn");
    reveal_strlit("white");
    reveal_strlit("black");
    reveal_strlit("No castling available");
    reveal_strlit("Castling options are:");
    reveal_strlit("- ");
    reveal_strlit("White can castle short");
    reveal_strlit("White can castle long");
    reveal_strlit("Black can castle short");
    reveal_strlit("Black can castle long");
    reveal_strlit("No en passant available");
    reveal_strlit("En passant available on ");
    reveal_strlit("Move clocks:");
    reveal_strlit("- Halfmove clock (for 50-move rule): ");
    reveal_strlit("- Fullmove clock: ");
}

proof fn lemma_other_pieces_no_nl(meta: Seq<Seq<char>>)
    requires
        meta.len() == 5,
        meta[1].len() >= 1,
        meta[1] != "-"@ ==> castle_list(meta[1], meta[1].len() as int) is Ok,
        forall|i: int| 0 <= i < 5 ==> !(#[trigger] meta[i]).contains('\n'),
    ensures
        forall|i: int|
            0 <= i < other_pieces(meta).len() ==> !(#[trigger] other_pieces(meta)[i]).contains('\n'),
{
    lemma_literals_no_nl();
    let side = side_name(meta[0][0]);
    assert(!side.contains('\n'));
    lemma_concat_no_nl("Its "@, side);
    lemma_concat_no_nl("Its "@ + side, "'s turn"@);
    assert(!meta[2].contains('\n'));
    assert(!meta[3].contains('\n'));
    assert(!meta[4].contains('\n'));
    lemma_concat_no_nl("En passant available on "@, meta[2]);
    lemma_concat_no_nl("- Halfmove clock (for 50-move rule): "@, meta[3]);
    lemma_concat_no_nl("- Fullmove clock: "@, meta[4]);
    let tok = meta[1];
    if tok != "-"@ {
        lemma_castle_text(tok, tok.len() as int);
        assert forall|j: int| 0 <= j < tok.len() implies !(#[trigger] castle_pieces(
            tok,
            tok.len() as int,
        )[j]).contains('\n') by {
            let l = castle_line(tok[j])->Some_0;
            assert(!l.contains('\n'));
            lemma_concat_no_nl("- "@, l);
        }
    }
    let op = other_pieces(meta);
    let b = ct_pieces(tok);
    assert forall|i: int| 0 <= i < op.len() implies !(#[trigger] op[i]).contains('\n') by {
        if 3 <= i < 3 + b.len() {
            assert(op[i] == b[i - 3]);
            if tok != "-"@ && i > 3 {
                assert(b[i - 3] == castle_pieces(tok, tok.len() as int)[i - 4]);
            }
        }
    }
}

proof fn lemma_castle_lines_read(tok: Seq<char>)
    ensures
        forall|c: char|
            #[trigger] castle_line(c) is Some ==> castle_symbol("- "@ + castle_line(c)->Some_0)
                == Some(c) && "- "@ + castle_line(c)->Some_0 != "No castling available"@ && "- "@
                + castle_line(c)->Some_0 != "Castling options are:"@,
        "Castling options are:"@ != "No castling available"@,
{
    reveal_strlit("- ");
    reveal_strlit("White can castle short");
    reveal_strlit("White can castle long");
    reveal_strlit("Black can castle short");
    reveal_strlit("Black can castle long");
    reveal_strlit("- White can castle short");
    reveal_strlit("- White can castle long");
    reveal_strlit("- Black can castle short");
    reveal_strlit("- Black can castle long");
    reveal_strlit("No castling available");
    reveal_strlit("Castling options are:");
    assert("Castling options are:"@[0] != "No castling available"@[0]);
    assert forall|c: char| #[trigger] castle_line(c) is Some implies castle_symbol(
        "- "@ + castle_line(c)->Some_0,
    ) == Some(c) && "- "@ + castle_line(c)->Some_0 != "No castling available"@ && "- "@
        + castle_line(c)->Some_0 != "Castling options are:"@ by {
        let x = "- "@ + castle_line(c)->Some_0;
        assert(x[0] == '-');
        assert("No castling available"@[0] != '-');
        assert("Castling options are:"@[0] != '-');
        assert("- Black can castle short"@[2] != "- White can castle short"@[2]);
        assert("- Black can castle long"@[2] != "- White can castle long"@[2]);
        if c == 'K' {
            assert(x =~= "- White can castle short"@);
        } else if c == 'Q' {
            assert(x =~= "- White can castle long"@);
        } else if c == 'k' {
            assert(x =~= "- Black can castle short"@);
            assert(x[2] != "- White can castle short"@[2]);
        } else {
            assert(x =~= "- Black can castle long"@);
            assert(x[2] != "- White can castle long"@[2]);
        }
    }
}

proof fn lemma_read_castles(l: Seq<Seq<char>>, base: int, tok: Seq<char>, j: int)
    requires
        tok.len() >= 1,
        castle_list(tok, tok.len() as int) is Ok,
        0 <= base,
        base + tok.len() < l.len(),
        l[base] == "Castling options are:"@,
        forall|t: int|
            0 <= t < tok.len() ==> l[base + 1 + t] == #[trigger] castle_pieces(tok, tok.len() as int)[t],
        0 <= j <= tok.len(),
    ensures
        read_castles(l, base + j) == (tok.take(j), base),
    decreases j,
{
    lemma_castle_lines_read(tok);
    lemma_castle_text(tok, tok.len() as int);
    if j == 0 {
        assert(tok.take(0) =~= Seq::<char>::empty());
    } else {
        lemma_read_castles(l, base, tok, j - 1);
        let c = tok[j - 1];
        assert(l[base + 1 + (j - 1)] == castle_pieces(tok, tok.len() as int)[j - 1]);
        assert(castle_line(c) is Some);
        assert(l[base + j] == "- "@ + castle_line(c)->Some_0);
        assert(tok.take(j) =~= tok.take(j - 1).push(c));
    }
}

/// The description keeps the metadata: reading an accepted encoding's description
/// back, line by line from its end, gives exactly the side to move, castling
/// rights, en passant target and both clocks that the encoding carried.
#[verifier::rlimit(100)]
pub proof fn lemma_metadata_round_trip(fen: Seq<char>)
    requires
        describe(fen) is Ok,
    ensures
        read_metadata(describe(fen)->Ok_0) == metadata(split_on(fen, '/')[7]),
{
    let segs = split_on(fen, '/');
    let meta = metadata(segs[7]);
    assert(segs.len() == 8);
    assert(metadata_error(meta) is None);
    let (pieces, bad) = board_scan(segs, 8);
    let ct = castling_text(meta[1])->Ok_0;
    let d = describe(fen)->Ok_0;
    assert(d == header(fen) + pieces + other_text(meta, ct));
    lemma_utf8_len_at_least_len(meta[0]);
    assert(meta[0].len() == 1);
    assert(meta[1].len() >= 1);
    lemma_words_no_newline(segs[7]);
    assert forall|i: int| 0 <= i < 5 implies !(#[trigger] meta[i]).contains('\n') by {
        assert(meta[i] == words(segs[7])[i + 1]);
    }
    lemma_other_text_lines(meta, ct);
    lemma_other_pieces_no_nl(meta);
    let op = other_pieces(meta);
    let hp = header(fen) + pieces;
    assert("\n"@ =~= seq!['\n']) by {
        reveal_strlit("\n");
    }
    assert(d =~= hp + seq!['\n'] + join(op, seq!['\n']));
    lemma_split_concat(hp, join(op, seq!['\n']), '\n');
    lemma_split_join(op, '\n');
    let l = split_on(d, '\n');
    let k = split_on(hp, '\n').len() as int;
    assert(l == split_on(hp, '\n') + op);
    let b = ct_pieces(meta[1]);
    let m = op.len() as int;
    let n = l.len() as int;
    assert(m == 10 + b.len());
    assert(l[n - 2] == "- Fullmove clock: "@ + meta[4]);
    assert(l[n - 3] == "- Halfmove clock (for 50-move rule): "@ + meta[3]);
    assert(l[n - 6] == ep_line(meta[2]));
    assert(l[k + 1] == "Its "@ + side_name(meta[0][0]) + "'s turn"@);
    reveal_strlit("- Fullmove clock: ");
    reveal_strlit("- Halfmove clock (for 50-move rule): ");
    reveal_strlit("En passant available on ");
    reveal_strlit("No en passant available");
    assert(l[n - 2].subrange(18, l[n - 2].len() as int) =~= meta[4]);
    assert(l[n - 3].subrange(37, l[n - 3].len() as int) =~= meta[3]);
    let ep = if l[n - 6] == "No en passant available"@ {
        "-"@
    } else {
        l[n - 6].subrange(24, l[n - 6].len() as int)
    };
    if meta[2] != "-"@ {
        assert(l[n - 6][0] != ("No en passant available"@)[0]);
        assert(l[n - 6].subrange(24, l[n - 6].len() as int) =~= meta[2]);
    }
    assert(ep == meta[2]);
    lemma_castle_lines_read(meta[1]);
    if meta[1] == "-"@ {
        assert(l[n - 8] == "No castling available"@);
        assert(read_castles(l, n - 8) == ("-"@, k + 3));
    } else {
        let t = meta[1].len() as int;
        lemma_castle_text(meta[1], t);
        assert(l[k + 3] == "Castling options are:"@);
        assert forall|j: int| 0 <= j < t implies l[k + 3 + 1 + j]
            == #[trigger] castle_pieces(meta[1], t)[j] by {
            assert(l[k + 4 + j] == op[4 + j]);
            assert(op[4 + j] == b[1 + j]);
        }
        lemma_read_castles(l, k + 3, meta[1], t);
        assert(meta[1].take(t) =~= meta[1]);
        assert(n - 8 == k + 3 + t);
    }
    assert(read_castles(l, n - 8) == (meta[1], k + 3));
    reveal_strlit("Its white's turn");
    reveal_strlit("Its ");
    reveal_strlit("'s turn");
    reveal_strlit("white");
    reveal_strlit("black");
    reveal_strlit("w");
    reveal_strlit("b");
    let side = if l[k + 1] == "Its white's turn"@ {
        "w"@
    } else {
        "b"@
    };
    if meta[0][0] == 'w' {
        assert(l[k + 1] =~= "Its white's turn"@);
        assert(side =~= meta[0]);
    } else {
        assert(l[k + 1][4] != ("Its white's turn"@)[4]);
        assert(side =~= meta[0]);
    }
    assert(read_metadata(d) =~= meta);
}

} // verus!
