//! The command line as the surroundings hand it over, brought into the form
//! of long options.
//!
//! A screen saver host passes its wishes as `/name` or `/name:value`. Each
//! such argument becomes the long option `--name`, followed by its value
//! where it has one; every other argument stays as it is.

use vstd::prelude::*;
use vstd::string::*;

verus! {

/// The place of the first `c` in `s`, or the length of `s` where it holds
/// none.
pub open spec fn find(s: Seq<char>, c: char) -> int
    decreases s.len(),
{
    if s.len() == 0 || s[0] == c {
        0
    } else {
        1 + find(s.drop_first(), c)
    }
}

/// `find` is the one place that has no `c` in front of it and `c`, or the
/// end of `s`, at it.
pub proof fn lemma_find_is(s: Seq<char>, c: char, n: int)
    requires
        0 <= n <= s.len(),
        forall|j: int| 0 <= j < n ==> s[j] != c,
        n < s.len() ==> s[n] == c,
    ensures
        find(s, c) == n,
    decreases s.len(),
{
    if n > 0 {
        let rest = s.drop_first();
        assert(s[0] != c);
        assert forall|j: int| 0 <= j < n - 1 implies rest[j] != c by {
            assert(rest[j] == s[j + 1]);
        }
        lemma_find_is(rest, c, n - 1);
    }
}

/// The two dashes in front of a long option.
pub open spec fn dashes() -> Seq<char> {
    seq!['-', '-']
}

/// What one argument becomes: behind a leading slash, the name with two
/// dashes in front and, where a colon follows the name, the value behind
/// the first colon as an argument of its own; without a leading slash, the
/// argument itself.
pub open spec fn rewritten(arg: Seq<char>) -> Seq<Seq<char>> {
    if arg.len() > 0 && arg[0] == '/' {
        let rest = arg.skip(1);
        let at = find(rest, ':');
        if at < rest.len() {
            seq![dashes() + rest.take(at), rest.skip(at + 1)]
        } else {
            seq![dashes() + rest]
        }
    } else {
        seq![arg]
    }
}

/// What a command line becomes: what each of its arguments becomes, in the
/// given order.
pub open spec fn rewritten_all(args: Seq<Seq<char>>) -> Seq<Seq<char>>
    decreases args.len(),
{
    if args.len() == 0 {
        Seq::empty()
    } else {
        rewritten_all(args.drop_last()) + rewritten(args.last())
    }
}

/// The texts of a sequence of strings.
pub open spec fn texts(strings: Seq<String>) -> Seq<Seq<char>> {
    strings.map_values(|s: String| s@)
}

/// The place of the first colon in `s`, or its length in characters where
/// it holds none.
fn find_colon(s: &str) -> (at: usize)
    ensures
        at == find(s@, ':'),
        at <= s@.len(),
{
    let len = s.unicode_len();
    let mut i: usize = 0;
    while i < len && s.get_char(i) != ':'
        invariant
            i <= len,
            len == s@.len(),
            forall|j: int| 0 <= j < i ==> s@[j] != ':',
        decreases len - i,
    {
        i += 1;
    }
    proof {
        lemma_find_is(s@, ':', i as int);
    }
    i
}

/// Appends to `out` what one argument becomes.
fn rewrite_arg(out: &mut Vec<String>, arg: &str)
    ensures
        texts(final(out)@) == texts(old(out)@) + rewritten(arg@),
{
    let len = arg.unicode_len();
    if len > 0 && arg.get_char(0) == '/' {
        let rest = arg.substring_char(1, len);
        assert(rest@ == arg@.skip(1));
        let rest_len = len - 1;
        let at = find_colon(rest);
        proof {
            reveal_strlit("--");
            assert("--"@ == dashes());
        }
        if at < rest_len {
            let name = String::from_str("--").concat(rest.substring_char(0, at));
            let value = String::from_str(rest.substring_char(at + 1, rest_len));
            assert(name@ == dashes() + rest@.take(at as int));
            assert(value@ == rest@.skip(at + 1));
            out.push(name);
            out.push(value);
            assert(texts(out@) == texts(old(out)@) + seq![name@, value@]);
        } else {
            let name = String::from_str("--").concat(rest);
            out.push(name);
            assert(texts(out@) == texts(old(out)@) + seq![name@]);
        }
    } else {
        let same = String::from_str(arg);
        out.push(same);
        assert(texts(out@) == texts(old(out)@) + seq![same@]);
    }
}

/// Brings a command line into the form of long options: `/name` becomes
/// `--name`, `/name:value` becomes `--name` followed by `value`, and every
/// other argument stays as it is.
pub fn rewrite_args(args: &Vec<String>) -> (r: Vec<String>)
    ensures
        texts(r@) == rewritten_all(texts(args@)),
{
    let mut out: Vec<String> = Vec::new();
    let len = args.len();
    let mut i: usize = 0;
    assert(texts(args@).take(0) == Seq::<Seq<char>>::empty());
    assert(texts(out@) == Seq::<Seq<char>>::empty());
    while i < len
        invariant
            i <= len,
            len == args@.len(),
            texts(out@) == rewritten_all(texts(args@).take(i as int)),
        decreases len - i,
    {
        proof {
            let upto = texts(args@).take(i + 1);
            assert(upto.drop_last() == texts(args@).take(i as int));
            assert(upto.last() == args@[i as int]@);
        }
        rewrite_arg(&mut out, args[i].as_str());
        i += 1;
    }
    assert(texts(args@).take(len as int) == texts(args@));
    out
}

} // verus!
