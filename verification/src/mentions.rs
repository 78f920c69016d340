//! Completing the names of members behind an `@`.

use vstd::prelude::*;
use vstd::string::StrSliceExecFns;

use crate::chat::Member;
use crate::text::{starts_with, take_chars, to_chars, to_lowercase};

#[allow(unused_imports)]
use crate::text::{is_prefix, lowercase};

verus! {

/// Space, tab, line feed, form feed and carriage return.
pub open spec fn ascii_white_space(c: char) -> bool {
    c == ' ' || c == '\t' || c == '\n' || c == '\x0C' || c == '\r'
}

/// Character `k` is the last `@` of `before`, at its start or behind white space.
pub open spec fn opens_mention(before: Seq<char>, k: int) -> bool {
    &&& 0 <= k < before.len()
    &&& before[k] == '@'
    &&& forall|j: int| k < j < before.len() ==> before[j] != '@'
    &&& k == 0 || ascii_white_space(before[k - 1])
}

/// Where the mention that is typed at the end of `before` starts.
pub open spec fn mention_start(before: Seq<char>) -> Option<int> {
    if exists|k: int| opens_mention(before, k) {
        Some(choose|k: int| opens_mention(before, k))
    } else {
        None
    }
}

/// What of a mention is typed: the text behind the `@`.
pub open spec fn typed_name(before: Seq<char>, start: int) -> Seq<char> {
    before.skip(start + 1)
}

/// Where the mention that is typed at the end of `before` starts.
pub fn find_mention(before: &str) -> (r: Option<usize>)
    ensures
        r is Some <==> mention_start(before@) is Some,
        r matches Some(k) ==> mention_start(before@) == Some(k as int) && opens_mention(
            before@,
            k as int,
        ),
{
    let chars = to_chars(before);
    let mut k: usize = chars.len();
    while k > 0 && chars[k - 1] != '@'
        invariant
            k <= chars.len(),
            chars@ == before@,
            forall|j: int| k <= j < chars@.len() ==> chars@[j] != '@',
        decreases k,
    {
        k = k - 1;
    }
    if k == 0 {
        return None;
    }
    let at: usize = k - 1;
    if at > 0 {
        let c = chars[at - 1];
        if !(c == ' ' || c == '\t' || c == '\n' || c == '\x0C' || c == '\r') {
            assert forall|j: int| !opens_mention(before@, j) by {
                if opens_mention(before@, j) {
                    assert(j == at);
                }
            }
            return None;
        }
    }
    assert(opens_mention(before@, at as int));
    Some(at)
}

/// The members of whom each lower-case name in `lowered` starts with `prefix`.
pub open spec fn select_by_name(
    members: Seq<Member>,
    lowered: Seq<Seq<char>>,
    prefix: Seq<char>,
) -> Seq<Member>
    decreases members.len(),
{
    if members.len() == 0 {
        Seq::empty()
    } else {
        let rest = select_by_name(members.drop_last(), lowered, prefix);
        if is_prefix(prefix, lowered[members.len() - 1]) {
            rest.push(members.last())
        } else {
            rest
        }
    }
}

/// The name of each member in lower case.
pub open spec fn lowered_names(members: Seq<Member>) -> Seq<Seq<char>> {
    Seq::new(members.len(), |i: int| lowercase(members[i].name@))
}

/// The members whose names start with `partial`, whatever the case of the letters.
pub open spec fn matching(members: Seq<Member>, partial: Seq<char>) -> Seq<Member> {
    select_by_name(members, lowered_names(members), lowercase(partial))
}

/// The texts of `strings`.
pub open spec fn texts(strings: Seq<String>) -> Seq<Seq<char>> {
    Seq::new(strings.len(), |i: int| strings[i]@)
}

/// The members of whom each lower-case name in `lowered` starts with `prefix`.
pub fn filter_members(members: &Vec<Member>, lowered: &Vec<String>, prefix: &str) -> (r: Vec<
    Member,
>)
    requires
        lowered@.len() == members@.len(),
    ensures
        r@ == select_by_name(members@, texts(lowered@), prefix@),
{
    let mut r: Vec<Member> = Vec::new();
    let mut i: usize = 0;
    while i < members.len()
        invariant
            i <= members.len(),
            lowered@.len() == members@.len(),
            r@ == select_by_name(members@.take(i as int), texts(lowered@), prefix@),
        decreases members.len() - i,
    {
        assert(members@.take(i + 1).drop_last() =~= members@.take(i as int));
        if starts_with(lowered[i].as_str(), prefix) {
            r.push(members[i].clone());
        }
        i = i + 1;
    }
    assert(members@.take(members@.len() as int) =~= members@);
    r
}

/// The names of `members` in lower case.
pub(crate) fn lower_names(members: &Vec<Member>) -> (r: Vec<String>)
    ensures
        r@.len() == members@.len(),
        texts(r@) == lowered_names(members@),
{
    let mut r: Vec<String> = Vec::new();
    let mut i: usize = 0;
    while i < members.len()
        invariant
            i <= members.len(),
            r@.len() == i,
            forall|j: int| 0 <= j < i ==> r@[j]@ == lowercase(members@[j].name@),
        decreases members.len() - i,
    {
        r.push(to_lowercase(members[i].name.as_str()));
        i = i + 1;
    }
    assert(texts(r@) =~= lowered_names(members@));
    r
}

/// The members whose names start with `partial`, whatever the case of the letters.
pub fn matching_members(members: &Vec<Member>, partial: &str) -> (r: Vec<Member>)
    ensures
        r@ == matching(members@, partial@),
{
    let lowered = lower_names(members);
    let prefix = to_lowercase(partial);
    filter_members(members, &lowered, prefix.as_str())
}

/// All of `names` start with `p`.
pub open spec fn starts_all(p: Seq<char>, names: Seq<Seq<char>>) -> bool {
    forall|i: int| 0 <= i < names.len() ==> is_prefix(p, #[trigger] names[i])
}

/// The index of the last of `beginnings` that all of `names` start with, or else of the first.
pub open spec fn last_shared(beginnings: Seq<Seq<char>>, names: Seq<Seq<char>>) -> int
    decreases beginnings.len(),
{
    if beginnings.len() <= 1 {
        0
    } else if starts_all(beginnings.last(), names) {
        beginnings.len() - 1
    } else {
        last_shared(beginnings.drop_last(), names)
    }
}

/// The beginnings of `name` in lower case: of no character, of one, and so on up to all of them.
pub open spec fn lowered_beginnings(name: Seq<char>) -> Seq<Seq<char>> {
    Seq::new(name.len() + 1, |j: int| lowercase(name.take(j)))
}

/// How many characters of `name` the names `lowered` agree in, whatever the case of the letters:
/// those of its longest beginning that all of them start with.
pub open spec fn shared_len(name: Seq<char>, lowered: Seq<Seq<char>>) -> int {
    last_shared(lowered_beginnings(name), lowered)
}

pub(crate) proof fn lemma_last_shared(beginnings: Seq<Seq<char>>, names: Seq<Seq<char>>)
    requires
        beginnings.len() > 0,
    ensures
        0 <= last_shared(beginnings, names) < beginnings.len(),
        last_shared(beginnings, names) == 0 || starts_all(
            beginnings[last_shared(beginnings, names)],
            names,
        ),
        forall|j: int|
            last_shared(beginnings, names) < j < beginnings.len() ==> !starts_all(
                #[trigger] beginnings[j],
                names,
            ),
    decreases beginnings.len(),
{
    if beginnings.len() > 1 && !starts_all(beginnings.last(), names) {
        let less = beginnings.drop_last();
        lemma_last_shared(less, names);
        assert forall|j: int| last_shared(less, names) < j < beginnings.len() implies !starts_all(
            #[trigger] beginnings[j],
            names,
        ) by {
            if j < less.len() {
                assert(less[j] == beginnings[j]);
            }
        }
    }
}

/// Whether all of `names` start with `p`.
fn start_all(p: &str, names: &Vec<String>) -> (r: bool)
    ensures
        r == starts_all(p@, texts(names@)),
{
    let mut i: usize = 0;
    while i < names.len()
        invariant
            i <= names.len(),
            forall|j: int| 0 <= j < i ==> is_prefix(p@, #[trigger] texts(names@)[j]),
        decreases names.len() - i,
    {
        if !starts_with(names[i].as_str(), p) {
            assert(!is_prefix(p@, texts(names@)[i as int]));
            return false;
        }
        i = i + 1;
    }
    true
}

/// The index of the last of `beginnings` that all of `names` start with, or else of the first.
pub fn find_shared(beginnings: &Vec<String>, names: &Vec<String>) -> (r: usize)
    ensures
        r == last_shared(texts(beginnings@), texts(names@)),
{
    let ghost all = texts(beginnings@);
    let mut n: usize = beginnings.len();
    assert(all.take(n as int) =~= all);
    while n > 1
        invariant
            n <= beginnings.len(),
            all == texts(beginnings@),
            last_shared(all, texts(names@)) == last_shared(all.take(n as int), texts(names@)),
        decreases n,
    {
        if start_all(beginnings[n - 1].as_str(), names) {
            return n - 1;
        }
        assert(all.take(n as int).drop_last() =~= all.take(n - 1));
        n = n - 1;
    }
    0
}

/// The beginnings of `name` in lower case.
pub(crate) fn lower_beginnings(name: &str) -> (r: Vec<String>)
    ensures
        texts(r@) == lowered_beginnings(name@),
{
    let n: usize = name.unicode_len();
    let mut r: Vec<String> = Vec::new();
    r.push(to_lowercase(""));
    let mut j: usize = 0;
    proof {
        reveal_strlit("");
        assert(name@.take(0) =~= ""@);
    }
    while j < n
        invariant
            j <= n,
            n == name@.len(),
            r@.len() == j + 1,
            forall|i: int| 0 <= i <= j ==> (#[trigger] r@[i])@ == lowercase(name@.take(i)),
        decreases n - j,
    {
        j = j + 1;
        r.push(to_lowercase(take_chars(name, j)));
    }
    assert(texts(r@) =~= lowered_beginnings(name@));
    r
}

} // verus!
