//! Text that the server shows: numbers and paths.
use vstd::prelude::*;
use vstd::string::{StrSliceExecFns, StringExecFns};

verus! {

/// The digit of a number below ten.
pub open spec fn digit(n: nat) -> char {
    ('0' as u32 + n) as char
}

/// A number in decimal, without leading zeros.
pub open spec fn decimal(n: nat) -> Seq<char>
    decreases n,
{
    if n < 10 {
        seq![digit(n)]
    } else {
        decimal(n / 10).push(digit(n % 10))
    }
}

fn digit_str(n: u64) -> (r: &'static str)
    requires
        n < 10,
    ensures
        r@ == seq![digit(n as nat)],
{
    proof {
        reveal_strlit("0");
        reveal_strlit("1");
        reveal_strlit("2");
        reveal_strlit("3");
        reveal_strlit("4");
        reveal_strlit("5");
        reveal_strlit("6");
        reveal_strlit("7");
        reveal_strlit("8");
        reveal_strlit("9");
    }
    let r = match n {
        0 => "0",
        1 => "1",
        2 => "2",
        3 => "3",
        4 => "4",
        5 => "5",
        6 => "6",
        7 => "7",
        8 => "8",
        _ => "9",
    };
    assert(r@ =~= seq![digit(n as nat)]);
    r
}

/// Appends a number in decimal.
pub fn push_decimal(out: &mut String, n: u64)
    ensures
        final(out)@ == old(out)@ + decimal(n as nat),
    decreases n,
{
    if n >= 10 {
        push_decimal(out, n / 10);
    }
    out.append(digit_str(n % 10));
    assert(out@ =~= old(out)@ + decimal(n as nat));
}

/// A text without the slashes in front of it.
pub open spec fn without_leading_slashes(s: Seq<char>) -> Seq<char>
    decreases s.len(),
{
    if s.len() > 0 && s[0] == '/' {
        without_leading_slashes(s.skip(1))
    } else {
        s
    }
}

/// A text without the slashes behind it.
pub open spec fn without_trailing_slashes(s: Seq<char>) -> Seq<char>
    decreases s.len(),
{
    if s.len() > 0 && s.last() == '/' {
        without_trailing_slashes(s.drop_last())
    } else {
        s
    }
}

/// The path under which a name is exported: one slash, then the name without the
/// slashes around it.
pub open spec fn export_path_of(name: Seq<char>) -> Seq<char> {
    seq!['/'] + without_leading_slashes(without_trailing_slashes(name))
}

/// Name `foo` results in the export path `/foo`.
pub fn export_path(name: &str) -> (path: String)
    ensures
        path@ == export_path_of(name@),
{
    let mut end: usize = name.unicode_len();
    assert(name@.take(end as int) =~= name@);
    while end > 0 && name.get_char(end - 1) == '/'
        invariant
            end <= name@.len(),
            without_trailing_slashes(name@) == without_trailing_slashes(name@.take(end as int)),
        decreases end,
    {
        assert(name@.take(end as int).drop_last() =~= name@.take(end - 1));
        end = end - 1;
    }
    let ghost kept = name@.take(end as int);
    let mut start: usize = 0;
    assert(kept.skip(0) =~= kept);
    while start < end && name.get_char(start) == '/'
        invariant
            start <= end <= name@.len(),
            kept == name@.take(end as int),
            without_leading_slashes(kept) == without_leading_slashes(kept.skip(start as int)),
        decreases end - start,
    {
        assert(kept.skip(start as int).skip(1) =~= kept.skip(start + 1));
        start = start + 1;
    }
    assert(name@.subrange(start as int, end as int) =~= kept.skip(start as int));
    let mut path = "/".to_owned();
    proof {
        reveal_strlit("/");
        assert(path@ =~= seq!['/']);
    }
    path.append(name.substring_char(start, end));
    path
}

/// An export path starts with one slash and goes on with none; it ends with none
/// unless it is that slash alone.
pub proof fn lemma_export_path(name: Seq<char>)
    ensures
        export_path_of(name).len() >= 1,
        export_path_of(name)[0] == '/',
        export_path_of(name).len() > 1 ==> export_path_of(name)[1] != '/'
            && export_path_of(name).last() != '/',
{
    let kept = without_trailing_slashes(name);
    lemma_no_trailing_slash(name);
    lemma_no_leading_slash(kept);
}

proof fn lemma_no_trailing_slash(s: Seq<char>)
    ensures
        without_trailing_slashes(s).len() > 0 ==> without_trailing_slashes(s).last() != '/',
    decreases s.len(),
{
    if s.len() > 0 && s.last() == '/' {
        lemma_no_trailing_slash(s.drop_last());
    }
}

proof fn lemma_no_leading_slash(s: Seq<char>)
    ensures
        without_leading_slashes(s).len() > 0 ==> without_leading_slashes(s)[0] != '/'
            && without_leading_slashes(s).last() == s.last(),
    decreases s.len(),
{
    if s.len() > 0 && s[0] == '/' {
        lemma_no_leading_slash(s.skip(1));
    }
}

/// The number that digits stand for, one after the other.
pub open spec fn value(digits: Seq<char>) -> nat
    decreases digits.len(),
{
    if digits.len() == 0 {
        0
    } else {
        value(digits.drop_last()) * 10 + (digits.last() as u32 - '0' as u32) as nat
    }
}

/// A number is written in digits that stand for it, without a zero in front unless
/// it is zero.
pub proof fn lemma_decimal_stands_for_its_number(n: nat)
    ensures
        value(decimal(n)) == n,
        decimal(n).len() > 0,
        n > 0 ==> decimal(n)[0] != '0',
        forall|i: int| 0 <= i < decimal(n).len() ==> '0' <= #[trigger] decimal(n)[i] <= '9',
    decreases n,
{
    let last = digit(n % 10);
    assert(last as u32 == '0' as u32 + n % 10);
    if n < 10 {
        assert(decimal(n).drop_last() =~= Seq::empty());
        assert(value(Seq::empty()) == 0);
        assert(decimal(n).last() == last);
    } else {
        lemma_decimal_stands_for_its_number(n / 10);
        assert(decimal(n).drop_last() =~= decimal(n / 10));
        assert(decimal(n).last() == last);
        assert forall|i: int| 0 <= i < decimal(n).len() implies '0' <= #[trigger] decimal(n)[i]
            <= '9' by {
            if i < decimal(n / 10).len() {
                assert(decimal(n)[i] == decimal(n / 10)[i]);
            }
        }
        assert(decimal(n)[0] == decimal(n / 10)[0]);
    }
}

/// `n` slashes.
pub open spec fn slashes(n: nat) -> Seq<char> {
    Seq::new(n, |i: int| '/')
}

/// A name is exported under a slash and the name, whatever slashes are put around
/// it. A name of slashes alone is exported as a slash.
pub proof fn lemma_export_path_keeps_the_name(name: Seq<char>, before: nat, behind: nat)
    requires
        name.len() > 0 ==> name[0] != '/' && name.last() != '/',
    ensures
        export_path_of(slashes(before) + name + slashes(behind)) == seq!['/'] + name,
{
    let front = slashes(before) + name;
    if name.len() > 0 {
        lemma_slashes_behind(front, behind);
        lemma_slashes_in_front(name, before);
    } else {
        assert(slashes(before) + name + slashes(behind) =~= Seq::empty() + slashes(
            before + behind,
        ));
        lemma_slashes_behind(Seq::empty(), before + behind);
        assert(name =~= Seq::empty());
    }
}

proof fn lemma_slashes_behind(s: Seq<char>, n: nat)
    requires
        s.len() > 0 ==> s.last() != '/',
    ensures
        without_trailing_slashes(s + slashes(n)) == s,
    decreases n,
{
    if n == 0 {
        assert(s + slashes(0) =~= s);
    } else {
        assert((s + slashes(n)).drop_last() =~= s + slashes((n - 1) as nat));
        lemma_slashes_behind(s, (n - 1) as nat);
    }
}

proof fn lemma_slashes_in_front(s: Seq<char>, n: nat)
    requires
        s.len() > 0,
        s[0] != '/',
    ensures
        without_leading_slashes(slashes(n) + s) == s,
    decreases n,
{
    if n == 0 {
        assert(slashes(0) + s =~= s);
    } else {
        assert((slashes(n) + s).skip(1) =~= slashes((n - 1) as nat) + s);
        lemma_slashes_in_front(s, (n - 1) as nat);
    }
}

} // verus!
