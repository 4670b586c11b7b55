use vstd::prelude::*;
use crate::text::{join, push_str, str_eq, string_of};

verus! {

pub open spec fn string_views(v: Seq<String>) -> Seq<Seq<char>> {
    v.map_values(|s: String| s@)
}

/// Drops the first argument (the command or subcommand name).
pub fn consume_args(args: Vec<String>) -> (r: Vec<String>)
    requires
        args@.len() > 0,
    ensures
        r@ == args@.drop_first(),
{
    let mut args = args;
    args.remove(0);
    args
}

/// The search-control keywords of the `go` command.
pub open spec fn is_go_keyword(a: Seq<char>) -> bool {
    ||| a == "searchmoves"@ || a == "ponder"@ || a == "wtime"@ || a == "btime"@
    ||| a == "winc"@ || a == "binc"@ || a == "movestogo"@ || a == "depth"@
    ||| a == "nodes"@ || a == "mate"@ || a == "movetime"@ || a == "infinite"@
}

/// The scan of the first `n` arguments for the value of `kw`: whether `kw` has been
/// seen, whether another keyword has ended the value, and the value so far (each
/// argument followed by a space).
pub open spec fn keyword_scan(args: Seq<Seq<char>>, kw: Seq<char>, n: int) -> (
    bool,
    bool,
    Seq<char>,
)
    decreases n,
{
    if n <= 0 {
        (false, false, Seq::empty())
    } else {
        let (seen, ended, v) = keyword_scan(args, kw, n - 1);
        let a = args[n - 1];
        if ended {
            (seen, ended, v)
        } else if a == kw {
            (true, false, v)
        } else if seen {
            if is_go_keyword(a) {
                (seen, true, v)
            } else {
                (seen, false, v + a + " "@)
            }
        } else {
            (seen, ended, v)
        }
    }
}

/// `s` without its trailing spaces.
pub open spec fn trim_end_spaces(s: Seq<char>) -> Seq<char>
    decreases s.len(),
{
    if s.len() > 0 && s.last() == ' ' {
        trim_end_spaces(s.drop_last())
    } else {
        s
    }
}

/// The arguments that follow `kw`, up to the next keyword, joined by spaces.
pub open spec fn keyword_value(args: Seq<Seq<char>>, kw: Seq<char>) -> Option<Seq<char>> {
    let v = keyword_scan(args, kw, args.len() as int).2;
    if v.len() == 0 {
        None
    } else {
        Some(trim_end_spaces(v))
    }
}

fn is_keyword(a: &str) -> (r: bool)
    ensures
        r == is_go_keyword(a@),
{
    str_eq(a, "searchmoves") || str_eq(a, "ponder") || str_eq(a, "wtime") || str_eq(a, "btime")
        || str_eq(a, "winc") || str_eq(a, "binc") || str_eq(a, "movestogo") || str_eq(
        a,
        "depth",
    ) || str_eq(a, "nodes") || str_eq(a, "mate") || str_eq(a, "movetime") || str_eq(
        a,
        "infinite",
    )
}

/// The value given to a `go` keyword: the arguments after it up to the next keyword,
/// joined by spaces; `None` where the keyword is absent or has no value.
pub fn process_keyword(args: &Vec<String>, keyword: String) -> (r: Option<String>)
    ensures
        match keyword_value(string_views(args@), keyword@) {
            Some(v) => r is Some && r->Some_0@ == v,
            None => r is None,
        },
{
    let ghost a = string_views(args@);
    let mut value: Vec<char> = Vec::new();
    let mut seen = false;
    let mut ended = false;
    let mut i: usize = 0;
    while i < args.len()
        invariant
            i <= args@.len(),
            a == string_views(args@),
            keyword_scan(a, keyword@, i as int) == (seen, ended, value@),
        decreases args@.len() - i,
    {
        let arg = args[i].as_str();
        if !ended {
            if str_eq(arg, keyword.as_str()) {
                seen = true;
            } else if seen {
                if is_keyword(arg) {
                    ended = true;
                } else {
                    push_str(&mut value, arg);
                    push_str(&mut value, " ");
                }
            }
        }
        i = i + 1;
    }
    if value.len() == 0 {
        return None;
    }
    let ghost full = value@;
    while value.len() > 0 && value[value.len() - 1] == ' '
        invariant
            trim_end_spaces(value@) == trim_end_spaces(full),
        decreases value@.len(),
    {
        let ghost before = value@;
        value.pop();
        assert(value@ =~= before.drop_last());
    }
    Some(string_of(&value))
}

/// Appends the parts joined by `sep`.
pub fn push_joined_strings(out: &mut Vec<char>, parts: &Vec<String>, sep: &str)
    ensures
        final(out)@ == old(out)@ + join(string_views(parts@), sep@),
{
    let ghost p = string_views(parts@);
    let mut i: usize = 0;
    assert(p.take(0) =~= Seq::<Seq<char>>::empty());
    assert(out@ =~= old(out)@ + join(p.take(0), sep@));
    while i < parts.len()
        invariant
            i <= parts@.len(),
            p == string_views(parts@),
            out@ == old(out)@ + join(p.take(i as int), sep@),
        decreases parts@.len() - i,
    {
        assert(p.take(i as int + 1).drop_last() =~= p.take(i as int));
        if i > 0 {
            push_str(out, sep);
        }
        push_str(out, parts[i].as_str());
        i = i + 1;
        assert(out@ =~= old(out)@ + join(p.take(i as int), sep@));
    }
    assert(p.take(parts@.len() as int) =~= p);
}

/// The first index at or after `i` where `w` stands.
pub open spec fn find_from(args: Seq<Seq<char>>, w: Seq<char>, i: int) -> Option<int>
    decreases args.len() - i,
{
    if i < 0 || i >= args.len() {
        None
    } else if args[i] == w {
        Some(i)
    } else {
        find_from(args, w, i + 1)
    }
}

/// The first index where `w` stands.
pub fn find_word(args: &Vec<String>, w: &str) -> (r: Option<usize>)
    ensures
        match r {
            Some(i) => i < args@.len() && find_from(string_views(args@), w@, 0) == Some(i as int),
            None => find_from(string_views(args@), w@, 0) is None,
        },
{
    let ghost a = string_views(args@);
    let mut i: usize = 0;
    while i < args.len()
        invariant
            i <= args@.len(),
            a == string_views(args@),
            find_from(a, w@, 0) == find_from(a, w@, i as int),
        decreases args@.len() - i,
    {
        if str_eq(args[i].as_str(), w) {
            return Some(i);
        }
        i = i + 1;
    }
    None
}

/// The arguments from index `from` on.
pub fn tail_from(args: &Vec<String>, from: usize) -> (r: Vec<String>)
    requires
        from <= args@.len(),
    ensures
        string_views(r@) == string_views(args@).subrange(from as int, args@.len() as int),
{
    let mut r: Vec<String> = Vec::new();
    let mut i: usize = from;
    while i < args.len()
        invariant
            from <= i <= args@.len(),
            r@.len() == i - from,
            forall|j: int| 0 <= j < r@.len() ==> (#[trigger] r@[j])@ == args@[from + j]@,
        decreases args@.len() - i,
    {
        r.push(args[i].clone());
        i = i + 1;
    }
    assert(string_views(r@) =~= string_views(args@).subrange(from as int, args@.len() as int));
    r
}

/// The arguments before index `to`.
pub fn head_until(args: &Vec<String>, to: usize) -> (r: Vec<String>)
    requires
        to <= args@.len(),
    ensures
        string_views(r@) == string_views(args@).take(to as int),
{
    let mut r: Vec<String> = Vec::new();
    let mut i: usize = 0;
    while i < to
        invariant
            i <= to <= args@.len(),
            r@.len() == i,
            forall|j: int| 0 <= j < r@.len() ==> (#[trigger] r@[j])@ == args@[j]@,
        decreases to - i,
    {
        r.push(args[i].clone());
        i = i + 1;
    }
    assert(string_views(r@) =~= string_views(args@).take(to as int));
    r
}

/// `args` without the occurrences of `w`.
pub open spec fn without_word(args: Seq<Seq<char>>, w: Seq<char>) -> Seq<Seq<char>>
    decreases args.len(),
{
    if args.len() == 0 {
        args
    } else if args.last() == w {
        without_word(args.drop_last(), w)
    } else {
        without_word(args.drop_last(), w).push(args.last())
    }
}

} // verus!
