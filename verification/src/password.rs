//! Random database passwords: 16 characters, twelve letters, two digits and
//! two specials, in random order with a letter first.

use rand::rngs::ThreadRng;
use rand::seq::{IndexedRandom, SliceRandom};
use rand::Rng;
use vstd::prelude::*;

use crate::text::push_char;

verus! {

broadcast use vstd::seq_lib::group_to_multiset_ensures;

pub const LETTERS: &'static str = "abcdefghijklmnopqrstuvwxyzABCDEFGHJKLMNPQRSTUWXYZ";

pub const DIGITS: &'static str = "1234567890";

pub const SPECIAL: &'static str = "!@%#%^&*()-=_+";

pub const LENGTH: usize = 16;

/// How many characters of `s` occur in `alphabet`.
pub open spec fn count_in(s: Seq<char>, alphabet: Seq<char>) -> nat
    decreases s.len(),
{
    if s.len() == 0 {
        0
    } else {
        count_in(s.drop_last(), alphabet) + if alphabet.contains(s.last()) {
            1nat
        } else {
            0nat
        }
    }
}

/// The password rule: sixteen characters, a letter first, twelve from
/// `LETTERS`, two from `DIGITS` and two from `SPECIAL`.
pub open spec fn password_shape(pw: Seq<char>) -> bool {
    &&& pw.len() == LENGTH
    &&& LETTERS@.contains(pw[0])
    &&& count_in(pw, LETTERS@) == 12
    &&& count_in(pw, DIGITS@) == 2
    &&& count_in(pw, SPECIAL@) == 2
}

/// An ASCII letter.
pub open spec fn is_ascii_letter(c: char) -> bool {
    ('a' <= c && c <= 'z') || ('A' <= c && c <= 'Z')
}

/// An ASCII digit.
pub open spec fn is_ascii_digit(c: char) -> bool {
    '0' <= c && c <= '9'
}

/// Declares `rand::rngs::ThreadRng` to Verus as an opaque type.
#[verifier::external_type_specification]
#[verifier::external_body]
pub struct ExThreadRng(ThreadRng);

/// `rand::rng()`: a handle to the thread-local generator.
#[verifier::external_body]
fn thread_rng() -> ThreadRng {
    rand::rng()
}

/// `IndexedRandom::choose_multiple`, collected: `min(amount, len)` elements
/// taken from distinct positions of `items`, in random order.
#[verifier::external_body]
fn choose_multiple(items: &[char], amount: usize, rng: &mut ThreadRng) -> (r: Vec<char>)
    ensures
        r@.len() == (if amount < items@.len() { amount as int } else { items@.len() as int }),
        r@.to_multiset().subset_of(items@.to_multiset()),
        forall|i: int| 0 <= i < r@.len() ==> items@.contains(#[trigger] r@[i]),
{
    items.choose_multiple(rng, amount).cloned().collect()
}

/// `SliceRandom::shuffle`: a permutation of `v` chosen at random.
#[verifier::external_body]
fn shuffle(v: &mut Vec<char>, rng: &mut ThreadRng)
    ensures
        final(v)@.len() == old(v)@.len(),
        final(v)@.to_multiset() == old(v)@.to_multiset(),
{
    v.as_mut_slice().shuffle(rng)
}

/// `Rng::random_range(0..bound)`: a number below `bound`, chosen at random.
#[verifier::external_body]
fn random_below(bound: usize, rng: &mut ThreadRng) -> (r: usize)
    requires
        bound > 0,
    ensures
        r < bound,
{
    rng.random_range(0..bound)
}

proof fn lemma_count_concat(a: Seq<char>, b: Seq<char>, alphabet: Seq<char>)
    ensures
        count_in(a + b, alphabet) == count_in(a, alphabet) + count_in(b, alphabet),
    decreases b.len(),
{
    if b.len() == 0 {
        assert(a + b =~= a);
    } else {
        lemma_count_concat(a, b.drop_last(), alphabet);
        assert((a + b).drop_last() =~= a + b.drop_last());
    }
}

proof fn lemma_count_single(c: char, alphabet: Seq<char>)
    ensures
        count_in(seq![c], alphabet) == if alphabet.contains(c) { 1nat } else { 0nat },
{
    assert(seq![c].drop_last() =~= Seq::<char>::empty());
    assert(count_in(Seq::<char>::empty(), alphabet) == 0);
}

proof fn lemma_count_split(s: Seq<char>, j: int, alphabet: Seq<char>)
    requires
        0 <= j < s.len(),
    ensures
        count_in(s, alphabet) == count_in(s.take(j), alphabet) + count_in(seq![s[j]], alphabet)
            + count_in(s.skip(j + 1), alphabet),
{
    assert(s =~= s.take(j) + seq![s[j]] + s.skip(j + 1));
    lemma_count_concat(s.take(j) + seq![s[j]], s.skip(j + 1), alphabet);
    lemma_count_concat(s.take(j), seq![s[j]], alphabet);
}

proof fn lemma_count_remove(s: Seq<char>, j: int, alphabet: Seq<char>)
    requires
        0 <= j < s.len(),
    ensures
        count_in(s, alphabet) == count_in(s.remove(j), alphabet) + count_in(seq![s[j]], alphabet),
{
    lemma_count_split(s, j, alphabet);
    assert(s.remove(j) =~= s.take(j) + s.skip(j + 1));
    lemma_count_concat(s.take(j), s.skip(j + 1), alphabet);
}

proof fn lemma_count_update(s: Seq<char>, j: int, c: char, alphabet: Seq<char>)
    requires
        0 <= j < s.len(),
    ensures
        count_in(s.update(j, c), alphabet) + count_in(seq![s[j]], alphabet) == count_in(s, alphabet)
            + count_in(seq![c], alphabet),
{
    let t = s.update(j, c);
    lemma_count_split(s, j, alphabet);
    lemma_count_split(t, j, alphabet);
    assert(t.take(j) =~= s.take(j));
    assert(t.skip(j + 1) =~= s.skip(j + 1));
}

/// Counting is blind to order: two sequences with the same elements count
/// the same.
proof fn lemma_count_permutation(s: Seq<char>, t: Seq<char>, alphabet: Seq<char>)
    requires
        s.to_multiset() == t.to_multiset(),
    ensures
        count_in(s, alphabet) == count_in(t, alphabet),
    decreases s.len(),
{
    if s.len() == 0 {
        assert(s.to_multiset().len() == s.len());
        assert(t.to_multiset().len() == t.len());
        assert(t.len() == 0);
    } else {
        let x = s.last();
        assert(s.to_multiset().count(x) > 0);
        assert(t.contains(x));
        let j = choose|j: int| 0 <= j < t.len() && t[j] == x;
        assert(s.remove(s.len() - 1) =~= s.drop_last());
        assert(s.drop_last().to_multiset() == t.remove(j).to_multiset());
        lemma_count_permutation(s.drop_last(), t.remove(j), alphabet);
        lemma_count_remove(t, j, alphabet);
        lemma_count_single(x, alphabet);
    }
}

proof fn lemma_count_all(s: Seq<char>, alphabet: Seq<char>)
    requires
        forall|i: int| 0 <= i < s.len() ==> alphabet.contains(#[trigger] s[i]),
    ensures
        count_in(s, alphabet) == s.len(),
    decreases s.len(),
{
    if s.len() > 0 {
        lemma_count_all(s.drop_last(), alphabet);
    }
}

proof fn lemma_count_none(s: Seq<char>, alphabet: Seq<char>)
    requires
        forall|i: int| 0 <= i < s.len() ==> !alphabet.contains(#[trigger] s[i]),
    ensures
        count_in(s, alphabet) == 0,
    decreases s.len(),
{
    if s.len() > 0 {
        lemma_count_none(s.drop_last(), alphabet);
    }
}

/// What the three alphabets hold: `LETTERS` only ASCII letters, `DIGITS`
/// exactly the ten ASCII digits, `SPECIAL` no ASCII letter or digit.
pub proof fn lemma_alphabets()
    ensures
        forall|c: char| LETTERS@.contains(c) ==> is_ascii_letter(c),
        forall|c: char| DIGITS@.contains(c) <==> is_ascii_digit(c),
        forall|c: char| SPECIAL@.contains(c) ==> !is_ascii_letter(c) && !is_ascii_digit(c),
{
    reveal_strlit("abcdefghijklmnopqrstuvwxyzABCDEFGHJKLMNPQRSTUWXYZ");
    reveal_strlit("1234567890");
    reveal_strlit("!@%#%^&*()-=_+");
    assert forall|c: char| LETTERS@.contains(c) implies is_ascii_letter(c) by {
        let i = choose|i: int| 0 <= i < LETTERS@.len() && LETTERS@[i] == c;
    }
    assert forall|c: char| DIGITS@.contains(c) <==> is_ascii_digit(c) by {
        if is_ascii_digit(c) {
            let i: int = if c == '0' { 9 } else { (c as u32 - '1' as u32) as int };
            assert(DIGITS@[i] == c);
        }
    }
    assert forall|c: char| SPECIAL@.contains(c) implies !is_ascii_letter(c) && !is_ascii_digit(c) by {
        let i = choose|i: int| 0 <= i < SPECIAL@.len() && SPECIAL@[i] == c;
    }
}

fn alphabet(s: &str) -> (v: Vec<char>)
    ensures
        v@ == s@,
{
    let n = s.unicode_len();
    let mut v = Vec::new();
    let mut i: usize = 0;
    while i < n
        invariant
            n == s@.len(),
            i <= n,
            v@ == s@.take(i as int),
        decreases n - i,
    {
        v.push(s.get_char(i));
        assert(s@.take(i + 1) =~= s@.take(i as int).push(s@[i as int]));
        i = i + 1;
    }
    assert(s@.take(n as int) =~= s@);
    v
}

fn contains_char(v: &Vec<char>, c: char) -> (b: bool)
    ensures
        b == v@.contains(c),
{
    let mut i: usize = 0;
    while i < v.len()
        invariant
            i <= v@.len(),
            forall|j: int| 0 <= j < i ==> v@[j] != c,
        decreases v@.len() - i,
    {
        if v[i] == c {
            return true;
        }
        i = i + 1;
    }
    false
}

/// The positions of `s` that hold a character of `LETTERS`, in order.
pub open spec fn letter_positions_of(s: Seq<char>) -> Seq<int>
    decreases s.len(),
{
    if s.len() == 0 {
        Seq::empty()
    } else {
        letter_positions_of(s.drop_last()) + if LETTERS@.contains(s.last()) {
            seq![s.len() - 1]
        } else {
            Seq::empty()
        }
    }
}

/// The password made from a shuffled pool and a drawn number: the pool as it
/// is when it starts with a letter, else the pool with its first character
/// swapped with the letter at the `draw`-th letter position.
pub open spec fn arranged(pool: Seq<char>, draw: int) -> Seq<char> {
    if LETTERS@.contains(pool[0]) {
        pool
    } else {
        let j = letter_positions_of(pool)[draw];
        pool.update(0, pool[j]).update(j, pool[0])
    }
}

proof fn lemma_letter_positions(s: Seq<char>)
    ensures
        letter_positions_of(s).len() == count_in(s, LETTERS@),
        forall|k: int|
            0 <= k < letter_positions_of(s).len() ==> 0 <= #[trigger] letter_positions_of(s)[k]
                < s.len() && LETTERS@.contains(s[letter_positions_of(s)[k]]),
    decreases s.len(),
{
    if s.len() > 0 {
        lemma_letter_positions(s.drop_last());
    }
}

/// Positions in `pool` that hold a letter of `LETTERS`.
fn letter_positions(pool: &Vec<char>, letters: &Vec<char>) -> (r: Vec<usize>)
    requires
        letters@ == LETTERS@,
    ensures
        r@.len() == letter_positions_of(pool@).len(),
        forall|k: int| 0 <= k < r@.len() ==> #[trigger] r@[k] as int == letter_positions_of(pool@)[k],
{
    let mut r: Vec<usize> = Vec::new();
    let mut i: usize = 0;
    assert(pool@.take(0) =~= Seq::<char>::empty());
    while i < pool.len()
        invariant
            letters@ == LETTERS@,
            i <= pool@.len(),
            r@.len() == letter_positions_of(pool@.take(i as int)).len(),
            forall|k: int|
                0 <= k < r@.len() ==> #[trigger] r@[k] as int == letter_positions_of(
                    pool@.take(i as int),
                )[k],
        decreases pool@.len() - i,
    {
        assert(pool@.take(i + 1).drop_last() =~= pool@.take(i as int));
        assert(pool@.take(i + 1).last() == pool@[i as int]);
        if contains_char(letters, pool[i]) {
            r.push(i);
        }
        i = i + 1;
    }
    assert(pool@.take(pool@.len() as int) =~= pool@);
    r
}

/// What arranging keeps: the length, how many characters come from any
/// alphabet, and a letter first when the pool holds a letter.
proof fn lemma_arranged(pool: Seq<char>, draw: int)
    requires
        pool.len() > 0,
        !LETTERS@.contains(pool[0]) ==> 0 <= draw < letter_positions_of(pool).len(),
    ensures
        arranged(pool, draw).len() == pool.len(),
        forall|alph: Seq<char>| #[trigger] count_in(arranged(pool, draw), alph) == count_in(pool, alph),
        LETTERS@.contains(pool[0]) || count_in(pool, LETTERS@) > 0 ==> LETTERS@.contains(
            arranged(pool, draw)[0],
        ),
{
    lemma_letter_positions(pool);
    if !LETTERS@.contains(pool[0]) {
        let j = letter_positions_of(pool)[draw];
        assert(LETTERS@.contains(pool[j]));
        assert(j != 0);
        let mid = pool.update(0, pool[j]);
        assert(mid[j] == pool[j]);
        assert forall|alph: Seq<char>| #[trigger] count_in(arranged(pool, draw), alph) == count_in(pool, alph) by {
            lemma_count_update(pool, 0, pool[j], alph);
            lemma_count_update(mid, j, pool[0], alph);
        }
    }
}

/// The password from a shuffled pool and a drawn number: the pool itself
/// when it starts with a letter, else the pool with the `draw`-th letter
/// moved to the front (and the first character put in its place).
pub fn arrange_password(pool: Vec<char>, draw: usize) -> (pw: String)
    requires
        pool@.len() > 0,
        !LETTERS@.contains(pool@[0]) ==> draw < letter_positions_of(pool@).len(),
    ensures
        pw@ == arranged(pool@, draw as int),
{
    let letters = alphabet(LETTERS);
    let mut pool = pool;
    if !contains_char(&letters, pool[0]) {
        let positions = letter_positions(&pool, &letters);
        proof {
            lemma_letter_positions(pool@);
        }
        let j = positions[draw];
        let first = pool[0];
        let picked = pool[j];
        pool.set(0, picked);
        pool.set(j, first);
    }
    let mut pw = String::new();
    let mut i: usize = 0;
    while i < pool.len()
        invariant
            i <= pool@.len(),
            pw@ == pool@.take(i as int),
        decreases pool@.len() - i,
    {
        push_char(&mut pw, pool[i]);
        assert(pool@.take(i + 1) =~= pool@.take(i as int).push(pool@[i as int]));
        i = i + 1;
    }
    assert(pool@.take(pool@.len() as int) =~= pool@);
    pw
}

/// How often `c` occurs in `s`.
pub open spec fn occurrences(s: Seq<char>, c: char) -> nat {
    count_in(s, seq![c])
}

/// No letter of `LETTERS` and no digit occurs twice.
pub open spec fn no_repeated_letter_or_digit(pw: Seq<char>) -> bool {
    forall|c: char| (LETTERS@.contains(c) || DIGITS@.contains(c)) ==> #[trigger] occurrences(pw, c) <= 1
}

proof fn lemma_occurrences_multiset(s: Seq<char>, c: char)
    ensures
        occurrences(s, c) == s.to_multiset().count(c),
    decreases s.len(),
{
    broadcast use vstd::multiset::group_multiset_axioms;

    if s.len() == 0 {
        assert(s.to_multiset().len() == 0);
        assert(s.to_multiset().count(c) <= s.to_multiset().len());
    } else {
        let t = s.drop_last();
        lemma_occurrences_multiset(t, c);
        assert(t.push(s.last()) =~= s);
        assert(s.to_multiset() == t.to_multiset().insert(s.last()));
        assert(seq![c].contains(s.last()) <==> s.last() == c) by {
            if s.last() == c {
                assert(seq![c][0] == c);
            }
        }
    }
}

proof fn lemma_occurs_twice(s: Seq<char>, i: int, j: int)
    requires
        0 <= i < j < s.len(),
        s[i] == s[j],
    ensures
        occurrences(s, s[i]) >= 2,
{
    let c = s[i];
    lemma_count_remove(s, j, seq![c]);
    lemma_count_single(c, seq![c]);
    assert(s.remove(j)[i] == c);
    lemma_count_remove(s.remove(j), i, seq![c]);
}

/// Where `key` grows along `s`, no character occurs twice in `s`.
proof fn lemma_increasing_once(s: Seq<char>, key: spec_fn(char) -> int, c: char)
    requires
        forall|i: int| 0 <= i < s.len() - 1 ==> #[trigger] key(s[i]) < key(s[i + 1]),
    ensures
        occurrences(s, c) <= 1,
        forall|i: int| 0 <= i < s.len() - 1 ==> key(s[i]) < key(s.last()),
    decreases s.len(),
{
    if s.len() > 0 {
        let t = s.drop_last();
        assert forall|i: int| 0 <= i < t.len() - 1 implies #[trigger] key(t[i]) < key(t[i + 1]) by {
            assert(key(s[i]) < key(s[i + 1]));
        }
        lemma_increasing_once(t, key, c);
        if t.len() > 0 {
            assert(key(s[t.len() - 1]) < key(s[t.len() as int]));
        }
        assert forall|i: int| 0 <= i < s.len() - 1 implies key(s[i]) < key(s.last()) by {
            if i < t.len() - 1 {
                assert(key(t[i]) < key(t.last()));
            }
        }
        if s.last() == c {
            assert forall|i: int| 0 <= i < t.len() implies !seq![c].contains(#[trigger] t[i]) by {
                assert(key(s[i]) < key(s.last()));
            }
            lemma_count_none(t, seq![c]);
        }
    }
}

/// Each character of `LETTERS` and of `DIGITS` occurs there once.
proof fn lemma_alphabets_without_repeats(c: char)
    ensures
        occurrences(LETTERS@, c) <= 1,
        occurrences(DIGITS@, c) <= 1,
{
    reveal_strlit("abcdefghijklmnopqrstuvwxyzABCDEFGHJKLMNPQRSTUWXYZ");
    reveal_strlit("1234567890");
    let letter_key = |x: char| if x >= 'a' { x as int } else { x as int + 1000 };
    let digit_key = |x: char| if x == '0' { 100 } else { x as int };
    assert forall|i: int| 0 <= i < LETTERS@.len() - 1 implies #[trigger] letter_key(LETTERS@[i])
        < letter_key(LETTERS@[i + 1]) by {}
    assert forall|i: int| 0 <= i < DIGITS@.len() - 1 implies #[trigger] digit_key(DIGITS@[i])
        < digit_key(DIGITS@[i + 1]) by {}
    lemma_increasing_once(LETTERS@, letter_key, c);
    lemma_increasing_once(DIGITS@, digit_key, c);
}

/// Drawing distinct positions of an alphabet in which `c` occurs at most
/// once gives `c` at most once.
proof fn lemma_drawn_once(drawn: Seq<char>, items: Seq<char>, c: char)
    requires
        drawn.to_multiset().subset_of(items.to_multiset()),
        occurrences(items, c) <= 1,
    ensures
        occurrences(drawn, c) <= 1,
{
    lemma_occurrences_multiset(drawn, c);
    lemma_occurrences_multiset(items, c);
}

/// Builds a password: twelve distinct letters, two distinct digits and two
/// specials drawn at random, shuffled, with a letter brought to the front
/// when the shuffle does not start with one.
pub fn random_password() -> (pw: String)
    ensures
        password_shape(pw@),
        no_repeated_letter_or_digit(pw@),
{
    proof {
        lemma_alphabets();
    }
    let mut rng = thread_rng();
    let letters = alphabet(LETTERS);
    let digits = alphabet(DIGITS);
    let special = alphabet(SPECIAL);
    proof {
        reveal_strlit("abcdefghijklmnopqrstuvwxyzABCDEFGHJKLMNPQRSTUWXYZ");
        reveal_strlit("1234567890");
        reveal_strlit("!@%#%^&*()-=_+");
    }
    let mut pool: Vec<char> = Vec::new();
    let mut chosen_letters = choose_multiple(letters.as_slice(), LENGTH - 4, &mut rng);
    let mut chosen_digits = choose_multiple(digits.as_slice(), 2, &mut rng);
    let mut chosen_special = choose_multiple(special.as_slice(), 2, &mut rng);
    let ghost l = chosen_letters@;
    let ghost d = chosen_digits@;
    let ghost s = chosen_special@;
    pool.append(&mut chosen_letters);
    pool.append(&mut chosen_digits);
    pool.append(&mut chosen_special);
    proof {
        assert(pool@ == l + d + s);
        lemma_count_concat(l + d, s, LETTERS@);
        lemma_count_concat(l, d, LETTERS@);
        lemma_count_concat(l + d, s, DIGITS@);
        lemma_count_concat(l, d, DIGITS@);
        lemma_count_concat(l + d, s, SPECIAL@);
        lemma_count_concat(l, d, SPECIAL@);
        lemma_count_all(l, LETTERS@);
        lemma_count_all(d, DIGITS@);
        lemma_count_all(s, SPECIAL@);
        assert forall|i: int| 0 <= i < l.len() implies !DIGITS@.contains(#[trigger] l[i])
            && !SPECIAL@.contains(l[i]) by {
            assert(LETTERS@.contains(l[i]));
        }
        assert forall|i: int| 0 <= i < d.len() implies !LETTERS@.contains(#[trigger] d[i])
            && !SPECIAL@.contains(d[i]) by {
            assert(DIGITS@.contains(d[i]));
        }
        assert forall|i: int| 0 <= i < s.len() implies !LETTERS@.contains(#[trigger] s[i])
            && !DIGITS@.contains(s[i]) by {
            assert(SPECIAL@.contains(s[i]));
        }
        lemma_count_none(l, DIGITS@);
        lemma_count_none(l, SPECIAL@);
        lemma_count_none(d, LETTERS@);
        lemma_count_none(d, SPECIAL@);
        lemma_count_none(s, LETTERS@);
        lemma_count_none(s, DIGITS@);
        assert forall|c: char| (LETTERS@.contains(c) || DIGITS@.contains(c)) implies #[trigger] occurrences(
            pool@,
            c,
        ) <= 1 by {
            lemma_alphabets_without_repeats(c);
            lemma_count_concat(l + d, s, seq![c]);
            lemma_count_concat(l, d, seq![c]);
            if LETTERS@.contains(c) {
                lemma_drawn_once(l, letters@, c);
                assert forall|i: int| 0 <= i < d.len() implies !seq![c].contains(#[trigger] d[i]) by {
                    assert(DIGITS@.contains(d[i]));
                }
                lemma_count_none(d, seq![c]);
            } else {
                lemma_drawn_once(d, digits@, c);
                assert forall|i: int| 0 <= i < l.len() implies !seq![c].contains(#[trigger] l[i]) by {
                    assert(LETTERS@.contains(l[i]));
                }
                lemma_count_none(l, seq![c]);
            }
            assert forall|i: int| 0 <= i < s.len() implies !seq![c].contains(#[trigger] s[i]) by {
                assert(SPECIAL@.contains(s[i]));
            }
            lemma_count_none(s, seq![c]);
        }
    }
    let ghost unshuffled = pool@;
    shuffle(&mut pool, &mut rng);
    proof {
        assert forall|alph: Seq<char>| #[trigger] count_in(pool@, alph) == count_in(unshuffled, alph) by {
            lemma_count_permutation(unshuffled, pool@, alph);
        }
        lemma_letter_positions(pool@);
    }
    // Reshuffling until a letter comes first picks a uniformly random
    // arrangement among those that start with a letter; so does moving a
    // uniformly chosen letter to the front of a non-conforming shuffle, and
    // that takes one step.
    let draw = if contains_char(&letters, pool[0]) {
        0
    } else {
        let positions = letter_positions(&pool, &letters);
        random_below(positions.len(), &mut rng)
    };
    proof {
        lemma_arranged(pool@, draw as int);
        let a = arranged(pool@, draw as int);
        assert(count_in(a, LETTERS@) == 12);
        assert(count_in(a, DIGITS@) == 2);
        assert(count_in(a, SPECIAL@) == 2);
        assert forall|c: char| (LETTERS@.contains(c) || DIGITS@.contains(c)) implies #[trigger] occurrences(a, c) <= 1 by {
            assert(count_in(a, seq![c]) == count_in(pool@, seq![c]));
            assert(occurrences(unshuffled, c) <= 1);
        }
    }
    arrange_password(pool, draw)
}

/// No letter of `LETTERS` and no digit appears at two positions.
pub proof fn lemma_no_repeats_at_positions(pw: Seq<char>, i: int, j: int)
    requires
        no_repeated_letter_or_digit(pw),
        0 <= i < j < pw.len(),
        LETTERS@.contains(pw[i]) || DIGITS@.contains(pw[i]),
    ensures
        pw[i] != pw[j],
{
    if pw[i] == pw[j] {
        lemma_occurs_twice(pw, i, j);
        assert(occurrences(pw, pw[i]) <= 1);
    }
}

/// What the shape means in the usual character classes: a letter first, at
/// least two digits and at least two characters that are neither letters nor
/// digits.
pub proof fn lemma_password_classes(pw: Seq<char>)
    requires
        password_shape(pw),
    ensures
        is_ascii_letter(pw[0]),
        forall|c: char| DIGITS@.contains(c) <==> is_ascii_digit(c),
        forall|c: char| SPECIAL@.contains(c) ==> !is_ascii_letter(c) && !is_ascii_digit(c),
{
    lemma_alphabets();
}

} // verus!
