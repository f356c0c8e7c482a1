//! The Rail Fence cipher: a zig-zag positional transposition over the full
//! character stream.  Each character is assigned to a rail by bouncing a
//! cursor from the top rail down to the bottom one and back; encoding
//! concatenates the rails top to bottom, and decoding replays the same
//! pattern to put every character back.

use vstd::prelude::*;

use crate::error::CipherError;
use crate::text::{chars_of, string_of_chars};

verus! {

/// The zig-zag cursor state after `i` steps: the rail the `i`-th character
/// lands on, and whether the cursor is moving down.  The cursor starts on
/// rail 0 moving down, turns at rail `r - 1`, and turns again at rail 0.
pub open spec fn zig_state(i: int, r: int) -> (int, bool)
    recommends
        r >= 2,
        i >= 0,
    decreases i,
{
    if i <= 0 {
        (0, true)
    } else {
        let (rail, down) = zig_state(i - 1, r);
        let down2 = if rail == 0 {
            true
        } else if rail == r - 1 {
            false
        } else {
            down
        };
        (
            if down2 {
                rail + 1
            } else {
                rail - 1
            },
            down2,
        )
    }
}

/// The rail the `i`-th character of a text lands on.
pub open spec fn rail_at(i: int, r: int) -> int
    recommends
        r >= 2,
        i >= 0,
{
    zig_state(i, r).0
}

/// Every position lands on an existing rail.
pub proof fn lemma_rail_at_bounds(i: int, r: int)
    requires
        r >= 2,
        i >= 0,
    ensures
        0 <= rail_at(i, r) < r,
    decreases i,
{
    if i > 0 {
        lemma_rail_at_bounds(i - 1, r);
    }
}

/// How many of the first `n` positions land on rail `j`.
pub open spec fn rail_count(r: int, j: int, n: int) -> nat
    decreases n,
{
    if n <= 0 {
        0
    } else {
        rail_count(r, j, n - 1) + if rail_at(n - 1, r) == j {
            1nat
        } else {
            0nat
        }
    }
}

/// The characters of `s` landing on rail `j`, in their original order,
/// among the first `n` positions.
pub open spec fn rail_chars(s: Seq<char>, r: int, j: int, n: int) -> Seq<char>
    decreases n,
{
    if n <= 0 {
        Seq::empty()
    } else {
        rail_chars(s, r, j, n - 1) + if rail_at(n - 1, r) == j {
            seq![s[n - 1]]
        } else {
            Seq::empty()
        }
    }
}

/// The rails concatenated top to bottom, up to rail `j` (exclusive).
pub open spec fn rails_concat(s: Seq<char>, r: int, j: int) -> Seq<char>
    decreases j,
{
    if j <= 0 {
        Seq::empty()
    } else {
        rails_concat(s, r, j - 1) + rail_chars(s, r, j - 1, s.len() as int)
    }
}

/// Where rail `j`'s segment starts in the concatenation of the rails of a
/// text of length `n`.
pub open spec fn rail_start(r: int, j: int, n: int) -> nat
    decreases j,
{
    if j <= 0 {
        0
    } else {
        rail_start(r, j - 1, n) + rail_count(r, j - 1, n)
    }
}

/// A text encoded by the Rail Fence cipher with `r` rails: the rails
/// concatenated top to bottom.  Texts of length at most 1 pass through
/// unchanged.
pub open spec fn fence_encode(s: Seq<char>, r: int) -> Seq<char>
    recommends
        r >= 2,
{
    if s.len() <= 1 {
        s
    } else {
        rails_concat(s, r, r)
    }
}

/// A text decoded by the Rail Fence cipher with `r` rails: position `i` of
/// the original is read back from rail `rail_at(i)`'s segment, at the
/// offset given by how many earlier positions share that rail.  Texts of
/// length at most 1 pass through unchanged.
pub open spec fn fence_decode(t: Seq<char>, r: int) -> Seq<char>
    recommends
        r >= 2,
{
    if t.len() <= 1 {
        t
    } else {
        Seq::new(
            t.len(),
            |i: int|
                t[(rail_start(r, rail_at(i, r), t.len() as int) + rail_count(
                    r,
                    rail_at(i, r),
                    i,
                )) as int],
        )
    }
}

/// Each rail holds as many characters as positions land on it.
proof fn lemma_rail_chars_len(s: Seq<char>, r: int, j: int, n: int)
    requires
        n <= s.len(),
    ensures
        rail_chars(s, r, j, n).len() == rail_count(r, j, n),
    decreases n,
{
    if n > 0 {
        lemma_rail_chars_len(s, r, j, n - 1);
    }
}

/// The concatenation of the first `j` rails has the length of their
/// counts summed, which is `rail_start(r, j, n)`.
proof fn lemma_rails_concat_len(s: Seq<char>, r: int, j: int)
    ensures
        rails_concat(s, r, j).len() == rail_start(r, j, s.len() as int),
    decreases j,
{
    if j > 0 {
        lemma_rails_concat_len(s, r, j - 1);
        lemma_rail_chars_len(s, r, j - 1, s.len() as int);
    }
}

/// Adding one position adds one to the count of exactly the rail it lands
/// on, so the start of every rail at or below it moves by one.
proof fn lemma_rail_start_step(r: int, j: int, n: int)
    requires
        r >= 2,
        n > 0,
    ensures
        rail_start(r, j, n) == rail_start(r, j, n - 1) + if rail_at(n - 1, r) < j {
            1int
        } else {
            0int
        },
    decreases j,
{
    lemma_rail_at_bounds(n - 1, r);
    if j > 0 {
        lemma_rail_start_step(r, j - 1, n);
        assert(rail_count(r, j - 1, n) == rail_count(r, j - 1, n - 1) + if rail_at(n - 1, r) == j
            - 1 {
            1int
        } else {
            0int
        });
    }
}

/// On an empty text every rail is empty.
proof fn lemma_rail_start_zero(r: int, j: int)
    ensures
        rail_start(r, j, 0) == 0,
    decreases j,
{
    if j > 0 {
        lemma_rail_start_zero(r, j - 1);
    }
}

/// All `n` positions land on some rail, so the rail counts sum to `n`.
proof fn lemma_rail_start_total(r: int, n: int)
    requires
        r >= 2,
        n >= 0,
    ensures
        rail_start(r, r, n) == n,
    decreases n,
{
    if n == 0 {
        lemma_rail_start_zero(r, r);
    }
    if n > 0 {
        lemma_rail_start_total(r, n - 1);
        lemma_rail_at_bounds(n - 1, r);
        lemma_rail_start_step(r, r, n);
    }
}

/// Builds the sequence of rail indices for a text of the given length:
/// the canonical zig-zag fence pattern, shared by both directions.
pub fn build_pattern(text_len: usize, rails: usize) -> (pattern: Vec<usize>)
    requires
        rails >= 2,
    ensures
        pattern@.len() == text_len,
        forall|i: int| 0 <= i < text_len ==> #[trigger] pattern@[i] == rail_at(i, rails as int),
{
    let mut pattern: Vec<usize> = Vec::with_capacity(text_len);
    let mut rail: usize = 0;
    let mut direction_down = true;
    for i in 0..text_len
        invariant
            rails >= 2,
            (rail as int, direction_down) == zig_state(i as int, rails as int),
            0 <= rail < rails,
            pattern@.len() == i,
            forall|k: int| 0 <= k < i ==> #[trigger] pattern@[k] == rail_at(k, rails as int),
    {
        pattern.push(rail);

        if rail == 0 {
            direction_down = true;
        } else if rail == rails - 1 {
            direction_down = false;
        }

        rail = if direction_down {
            rail + 1
        } else {
            rail - 1
        };
        proof {
            lemma_rail_at_bounds(i + 1, rails as int);
        }
    }
    pattern
}

/// A Rail Fence cipher instance holding its rail count.
#[derive(Debug)]
pub struct RailFence {
    rails: usize,
}

impl RailFence {
    /// The number of rails this instance distributes characters over.
    pub closed spec fn spec_rails(&self) -> usize {
        self.rails
    }

    #[verifier::type_invariant]
    spec fn wf(&self) -> bool {
        self.rails >= 2
    }

    /// Creates a Rail Fence cipher instance.  A rail count below 2 is
    /// rejected with `InvalidKey`.
    pub fn new(rails: usize) -> (r: Result<Self, CipherError>)
        ensures
            match r {
                Ok(f) => rails >= 2 && f.spec_rails() == rails,
                Err(e) => rails < 2 && e is InvalidKey && e.spec_message()
                    == "Rail Fence rails must be >= 2"@,
            },
    {
        if rails < 2 {
            return Err(
                CipherError::InvalidKey(String::from_str("Rail Fence rails must be >= 2")),
            );
        }
        Ok(Self { rails })
    }
}

impl crate::Cipher for RailFence {
    /// Encrypts the text: each character goes to its zig-zag rail, and the
    /// rails are concatenated top to bottom.  Never fails.
    fn encrypt(&self, text: &str) -> (r: Result<String, CipherError>)
        ensures
            r matches Ok(s) && s@ == fence_encode(text@, self.spec_rails() as int),
    {
        proof {
            use_type_invariant(self);
        }
        Ok(encrypt(text, self.rails))
    }

    /// Decrypts the text by replaying the zig-zag pattern.  Never fails.
    fn decrypt(&self, text: &str) -> (r: Result<String, CipherError>)
        ensures
            r matches Ok(s) && s@ == fence_decode(text@, self.spec_rails() as int),
    {
        proof {
            use_type_invariant(self);
        }
        Ok(decrypt(text, self.rails))
    }
}

/// Encrypts `text` over `rails` rails: scatters the characters to their
/// rails in order, then concatenates the rails top to bottom.  A text of
/// length at most 1 is returned unchanged.
pub fn encrypt(text: &str, rails: usize) -> (r: String)
    requires
        rails >= 2,
    ensures
        r@ == fence_encode(text@, rails as int),
{
    let cs = chars_of(text);
    let n = cs.len();
    if n <= 1 {
        let copy = string_of_chars(&cs);
        return copy;
    }
    let pattern = build_pattern(n, rails);

    let mut rows: Vec<Vec<char>> = Vec::with_capacity(rails);
    for j in 0..rails
        invariant
            rows@.len() == j,
            forall|k: int| 0 <= k < j ==> #[trigger] rows@[k]@ == Seq::<char>::empty(),
    {
        rows.push(Vec::new());
    }
    proof {
        assert forall|k: int| 0 <= k < rails implies #[trigger] rows@[k]@ == rail_chars(
            cs@,
            rails as int,
            k,
            0,
        ) by {}
    }
    for i in 0..n
        invariant
            cs@ == text@,
            n == cs@.len(),
            rails >= 2,
            pattern@.len() == n,
            forall|k: int| 0 <= k < n ==> #[trigger] pattern@[k] == rail_at(k, rails as int),
            rows@.len() == rails,
            forall|k: int|
                0 <= k < rails ==> #[trigger] rows@[k]@ == rail_chars(cs@, rails as int, k, i as int),
    {
        let rail = pattern[i];
        proof {
            lemma_rail_at_bounds(i as int, rails as int);
        }
        rows[rail].push(cs[i]);
        proof {
            assert forall|k: int| 0 <= k < rails implies #[trigger] rows@[k]@ == rail_chars(
                cs@,
                rails as int,
                k,
                i + 1,
            ) by {
                if k == rail as int {
                    assert(rows@[k]@ =~= rail_chars(cs@, rails as int, k, i + 1));
                } else {
                    assert(rail_chars(cs@, rails as int, k, i + 1) =~= rail_chars(
                        cs@,
                        rails as int,
                        k,
                        i as int,
                    ));
                }
            }
        }
    }

    let mut out: Vec<char> = Vec::new();
    for j in 0..rails
        invariant
            cs@ == text@,
            n == cs@.len(),
            rails >= 2,
            rows@.len() == rails,
            forall|k: int|
                j <= k < rails ==> #[trigger] rows@[k]@ == rail_chars(cs@, rails as int, k, n as int),
            out@ == rails_concat(cs@, rails as int, j as int),
    {
        let mut row = Vec::new();
        std::mem::swap(&mut row, &mut rows[j]);
        out.append(&mut row);
    }
    string_of_chars(&out)
}

/// Decrypts `text` over `rails` rails: recomputes the pattern, sizes each
/// rail's contiguous segment, and replays the pattern pulling the next
/// unused character from the indicated segment.  A text of length at most
/// 1 is returned unchanged.
pub fn decrypt(text: &str, rails: usize) -> (r: String)
    requires
        rails >= 2,
    ensures
        r@ == fence_decode(text@, rails as int),
{
    let cs = chars_of(text);
    let n = cs.len();
    if n <= 1 {
        let copy = string_of_chars(&cs);
        return copy;
    }
    let pattern = build_pattern(n, rails);

    // rail_starts[j]: where rail j's segment starts; filled by a running sum
    // of the rail counts.
    let mut rail_counts: Vec<usize> = Vec::with_capacity(rails);
    for j in 0..rails
        invariant
            rail_counts@.len() == j,
            forall|k: int| 0 <= k < j ==> #[trigger] rail_counts@[k] == 0,
    {
        rail_counts.push(0);
    }
    proof {
        assert forall|k: int| 0 <= k < rails implies #[trigger] rail_counts@[k] == rail_count(
            rails as int,
            k,
            0,
        ) by {}
    }
    for i in 0..n
        invariant
            n == cs@.len(),
            rails >= 2,
            pattern@.len() == n,
            forall|k: int| 0 <= k < n ==> #[trigger] pattern@[k] == rail_at(k, rails as int),
            rail_counts@.len() == rails,
            forall|k: int|
                0 <= k < rails ==> #[trigger] rail_counts@[k] == rail_count(rails as int, k, i as int),
    {
        let rail = pattern[i];
        proof {
            lemma_rail_at_bounds(i as int, rails as int);
            lemma_rail_count_le(rails as int, rail as int, i as int, n as int);
            lemma_rail_count_le_len(rails as int, rail as int, i as int);
        }
        rail_counts[rail] = rail_counts[rail] + 1;
        proof {
            assert forall|k: int| 0 <= k < rails implies #[trigger] rail_counts@[k] == rail_count(
                rails as int,
                k,
                i + 1,
            ) by {}
        }
    }

    let mut rail_starts: Vec<usize> = Vec::with_capacity(rails);
    let mut cursor: usize = 0;
    for j in 0..rails
        invariant
            n == cs@.len(),
            rails >= 2,
            rail_counts@.len() == rails,
            forall|k: int|
                0 <= k < rails ==> #[trigger] rail_counts@[k] == rail_count(rails as int, k, n as int),
            rail_starts@.len() == j,
            forall|k: int|
                0 <= k < j ==> #[trigger] rail_starts@[k] == rail_start(rails as int, k, n as int),
            cursor == rail_start(rails as int, j as int, n as int),
            cursor <= n,
    {
        rail_starts.push(cursor);
        proof {
            lemma_rail_start_le(rails as int, j + 1, rails as int, n as int);
            lemma_rail_start_total(rails as int, n as int);
        }
        cursor = cursor + rail_counts[j];
    }

    // rail_positions[j]: how many characters of rail j's segment are used.
    let mut rail_positions: Vec<usize> = Vec::with_capacity(rails);
    for j in 0..rails
        invariant
            rail_positions@.len() == j,
            forall|k: int| 0 <= k < j ==> #[trigger] rail_positions@[k] == 0,
    {
        rail_positions.push(0);
    }
    proof {
        assert forall|k: int| 0 <= k < rails implies #[trigger] rail_positions@[k] == rail_count(
            rails as int,
            k,
            0,
        ) by {}
    }

    let mut plain: Vec<char> = Vec::new();
    for i in 0..n
        invariant
            n == cs@.len(),
            rails >= 2,
            pattern@.len() == n,
            forall|k: int| 0 <= k < n ==> #[trigger] pattern@[k] == rail_at(k, rails as int),
            rail_starts@.len() == rails,
            forall|k: int|
                0 <= k < rails ==> #[trigger] rail_starts@[k] == rail_start(rails as int, k, n as int),
            rail_positions@.len() == rails,
            forall|k: int|
                0 <= k < rails ==> #[trigger] rail_positions@[k] == rail_count(
                    rails as int,
                    k,
                    i as int,
                ),
            plain@ == fence_decode(cs@, rails as int).subrange(0, i as int),
    {
        let rail = pattern[i];
        proof {
            lemma_rail_at_bounds(i as int, rails as int);
            lemma_rail_count_le(rails as int, rail as int, i as int, n as int);
            lemma_rail_count_le_len(rails as int, rail as int, i as int);
            lemma_rail_start_count_bound(rails as int, rail as int, n as int);
            lemma_rail_start_total(rails as int, n as int);
        }
        let pos = rail_positions[rail];
        plain.push(cs[rail_starts[rail] + pos]);
        rail_positions[rail] = pos + 1;
        proof {
            assert forall|k: int| 0 <= k < rails implies #[trigger] rail_positions@[k] == rail_count(
                rails as int,
                k,
                i + 1,
            ) by {}
            assert(plain@ == fence_decode(cs@, rails as int).subrange(0, i + 1));
        }
    }
    proof {
        assert(fence_decode(cs@, rails as int).subrange(0, n as int) == fence_decode(
            cs@,
            rails as int,
        ));
    }
    string_of_chars(&plain)
}

/// Inside the concatenation of the rails, rail `j`'s segment holds rail
/// `j`'s characters: position `rail_start(j) + t` of the concatenation is
/// position `t` of rail `j`.
proof fn lemma_rails_concat_index(s: Seq<char>, r: int, m: int, j: int, t: int)
    requires
        r >= 2,
        0 <= j < m <= r,
        0 <= t < rail_count(r, j, s.len() as int),
    ensures
        rail_start(r, j, s.len() as int) + t < rails_concat(s, r, m).len(),
        rails_concat(s, r, m)[rail_start(r, j, s.len() as int) + t] == rail_chars(
            s,
            r,
            j,
            s.len() as int,
        )[t],
    decreases m,
{
    let n = s.len() as int;
    lemma_rails_concat_len(s, r, m);
    lemma_rails_concat_len(s, r, m - 1);
    lemma_rail_chars_len(s, r, m - 1, n);
    if j == m - 1 {
    } else {
        lemma_rails_concat_index(s, r, m - 1, j, t);
        lemma_rail_start_count_bound(r, j, n);
        lemma_rail_start_le(r, j + 1, m - 1, n);
    }
}

/// Position `i` of the text stands within its rail's characters at the
/// offset given by how many earlier positions share the rail.
proof fn lemma_rail_chars_index(s: Seq<char>, r: int, j: int, i: int, n: int)
    requires
        0 <= i < n <= s.len(),
        rail_at(i, r) == j,
    ensures
        rail_count(r, j, i) < rail_count(r, j, n),
        rail_chars(s, r, j, n)[rail_count(r, j, i) as int] == s[i],
    decreases n,
{
    lemma_rail_chars_len(s, r, j, n - 1);
    if i < n - 1 {
        lemma_rail_chars_index(s, r, j, i, n - 1);
    }
}

/// The Rail Fence round trip: for every rail count of at least 2 and every
/// text, decoding an encoded text gives the original back.
pub proof fn lemma_rail_fence_round_trip(s: Seq<char>, r: int)
    requires
        r >= 2,
    ensures
        fence_decode(fence_encode(s, r), r) == s,
{
    if s.len() > 1 {
        let n = s.len() as int;
        let e = fence_encode(s, r);
        lemma_rails_concat_len(s, r, r);
        lemma_rail_start_total(r, n);
        assert(e.len() == n);
        let d = fence_decode(e, r);
        assert forall|i: int| 0 <= i < n implies d[i] == s[i] by {
            let j = rail_at(i, r);
            lemma_rail_at_bounds(i, r);
            lemma_rail_chars_index(s, r, j, i, n);
            lemma_rails_concat_index(s, r, r, j, rail_count(r, j, i) as int);
        }
        assert(d == s);
    }
}

/// A rail's count over a prefix never exceeds its count over the whole
/// text, and is strictly below it when a later position lands on the rail.
proof fn lemma_rail_count_le(r: int, j: int, i: int, n: int)
    requires
        0 <= i <= n,
    ensures
        rail_count(r, j, i) <= rail_count(r, j, n),
        i < n && rail_at(i, r) == j ==> rail_count(r, j, i) < rail_count(r, j, n),
    decreases n,
{
    if i < n {
        lemma_rail_count_le(r, j, i, n - 1);
    }
}

/// A rail's count over a prefix never exceeds the prefix's length.
proof fn lemma_rail_count_le_len(r: int, j: int, i: int)
    requires
        i >= 0,
    ensures
        rail_count(r, j, i) <= i,
    decreases i,
{
    if i > 0 {
        lemma_rail_count_le_len(r, j, i - 1);
    }
}

/// Rail starts grow with the rail index.
proof fn lemma_rail_start_le(r: int, j1: int, j2: int, n: int)
    requires
        0 <= j1 <= j2,
    ensures
        rail_start(r, j1, n) <= rail_start(r, j2, n),
    decreases j2,
{
    if j1 < j2 {
        lemma_rail_start_le(r, j1, j2 - 1, n);
    }
}

/// A rail's segment ends where the next rail's segment starts.
proof fn lemma_rail_start_count_bound(r: int, j: int, n: int)
    requires
        0 <= j < r,
    ensures
        rail_start(r, j, n) + rail_count(r, j, n) == rail_start(r, j + 1, n),
        rail_start(r, j + 1, n) <= rail_start(r, r, n),
{
    lemma_rail_start_le(r, j + 1, r, n);
}

} // verus!
