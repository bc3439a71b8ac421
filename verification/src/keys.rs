//! The composite cache-key scheme: `(bucket_id, sizing_id, image_id, kind)`
//! rendered as the stable string `bucket:sizing:image:extension`, together
//! with the proof that the rendering is injective.

use crate::config::file_extension_of;
use crate::config::lemma_extension_colon_free;
use crate::config::lemma_extension_injective;
use crate::config::ImageKind;
use vstd::prelude::*;
use vstd::string::StringExecFns;

verus! {

/// Decimal digit character for 0..=9.
pub open spec fn dec_digit(n: int) -> char {
    if n == 0 { '0' } else if n == 1 { '1' } else if n == 2 { '2' } else if n == 3 { '3' }
    else if n == 4 { '4' } else if n == 5 { '5' } else if n == 6 { '6' } else if n == 7 { '7' }
    else if n == 8 { '8' } else { '9' }
}

/// Decimal rendering of a natural number, most significant digit first.
pub open spec fn dec_of(n: nat) -> Seq<char>
    decreases n,
{
    if n < 10 {
        seq![dec_digit(n as int)]
    } else {
        dec_of(n / 10) + seq![dec_digit((n % 10) as int)]
    }
}

/// A sequence that never contains the key separator.
pub open spec fn colon_free(s: Seq<char>) -> bool {
    forall|i: int| 0 <= i < s.len() ==> s[i] != ':'
}

/// The composite cache key, rendered as a stable string.
pub open spec fn key_of(bucket_id: u32, sizing_id: u32, image_id: Seq<char>, kind: ImageKind) -> Seq<char> {
    dec_of(bucket_id as nat) + seq![':'] + dec_of(sizing_id as nat) + seq![':'] + image_id
        + seq![':'] + file_extension_of(kind)
}

pub proof fn lemma_dec_of_nonempty(n: nat)
    ensures
        dec_of(n).len() >= 1,
    decreases n,
{
    if n >= 10 {
        lemma_dec_of_nonempty(n / 10);
    }
}

/// Decimal renderings hold digits only: never the separator.
pub proof fn lemma_dec_of_colon_free(n: nat)
    ensures
        colon_free(dec_of(n)),
    decreases n,
{
    if n >= 10 {
        lemma_dec_of_colon_free(n / 10);
        assert forall|i: int| 0 <= i < dec_of(n).len() implies dec_of(n)[i] != ':' by {
            if i < dec_of(n / 10).len() {
                assert(dec_of(n)[i] == dec_of(n / 10)[i]);
            }
        }
    }
}

/// Two numbers with the same decimal rendering are equal.
pub proof fn lemma_dec_of_injective(a: nat, b: nat)
    requires
        dec_of(a) == dec_of(b),
    ensures
        a == b,
    decreases a,
{
    lemma_dec_of_nonempty(a);
    lemma_dec_of_nonempty(b);
    if a < 10 && b < 10 {
        assert(dec_of(a)[0] == dec_digit(a as int));
        assert(dec_of(b)[0] == dec_digit(b as int));
    } else if a < 10 && b >= 10 {
        lemma_dec_of_nonempty(b / 10);
        assert(dec_of(b).len() >= 2);
    } else if a >= 10 && b < 10 {
        lemma_dec_of_nonempty(a / 10);
        assert(dec_of(a).len() >= 2);
    } else {
        let la = dec_of(a / 10).len() as int;
        let lb = dec_of(b / 10).len() as int;
        assert(dec_of(a).len() == la + 1 && dec_of(b).len() == lb + 1);
        assert(la == lb);
        assert(dec_of(a)[la] == dec_digit((a % 10) as int));
        assert(dec_of(b)[lb] == dec_digit((b % 10) as int));
        assert(a % 10 == b % 10);
        assert forall|i: int| 0 <= i < la implies #[trigger] dec_of(a / 10)[i] == dec_of(b / 10)[i] by {
            assert(dec_of(a)[i] == dec_of(a / 10)[i]);
            assert(dec_of(b)[i] == dec_of(b / 10)[i]);
        }
        assert(dec_of(a / 10) =~= dec_of(b / 10));
        lemma_dec_of_injective(a / 10, b / 10);
        vstd::arithmetic::div_mod::lemma_fundamental_div_mod(a as int, 10);
        vstd::arithmetic::div_mod::lemma_fundamental_div_mod(b as int, 10);
    }
}

/// Splitting at the first separator after a colon-free prefix is
/// unambiguous: equal renderings have equal parts.
proof fn lemma_sep_split(a1: Seq<char>, r1: Seq<char>, a2: Seq<char>, r2: Seq<char>)
    requires
        colon_free(a1),
        colon_free(a2),
        a1 + seq![':'] + r1 == a2 + seq![':'] + r2,
    ensures
        a1 == a2,
        r1 == r2,
{
    let s = a1 + seq![':'] + r1;
    let l1 = a1.len() as int;
    let l2 = a2.len() as int;
    assert(s.len() == l1 + 1 + r1.len() && s.len() == l2 + 1 + r2.len());
    if l1 < l2 {
        assert(s[l1] == ':');
        assert(s[l1] == a2[l1]);
        assert(false);
    }
    if l2 < l1 {
        assert((a2 + seq![':'] + r2)[l2] == ':');
        assert((a2 + seq![':'] + r2)[l2] == a1[l2]);
        assert(false);
    }
    assert(a1 =~= a2) by {
        assert(forall|i: int| 0 <= i < l1 ==> s[i] == a1[i] && s[i] == a2[i]);
    }
    assert(r1 =~= r2) by {
        assert(forall|i: int| 0 <= i < r1.len() ==> s[l1 + 1 + i] == r1[i] && s[l1 + 1 + i] == r2[i]);
    }
}

/// Cache-key derivation is injective over its four components: two
/// distinct tuples never render to the same key, for any image ids free
/// of the separator (as every hex-encoded content hash is).
#[verifier::rlimit(50)]
pub proof fn lemma_cache_key_injective(
    b1: u32, s1: u32, i1: Seq<char>, k1: ImageKind,
    b2: u32, s2: u32, i2: Seq<char>, k2: ImageKind,
)
    requires
        colon_free(i1),
        colon_free(i2),
        key_of(b1, s1, i1, k1) == key_of(b2, s2, i2, k2),
    ensures
        b1 == b2,
        s1 == s2,
        i1 == i2,
        k1 == k2,
{
    let t1 = dec_of(s1 as nat) + seq![':'] + (i1 + seq![':'] + file_extension_of(k1));
    let t2 = dec_of(s2 as nat) + seq![':'] + (i2 + seq![':'] + file_extension_of(k2));
    assert(key_of(b1, s1, i1, k1) =~= dec_of(b1 as nat) + seq![':'] + t1);
    assert(key_of(b2, s2, i2, k2) =~= dec_of(b2 as nat) + seq![':'] + t2);
    lemma_dec_of_colon_free(b1 as nat);
    lemma_dec_of_colon_free(b2 as nat);
    lemma_dec_of_colon_free(s1 as nat);
    lemma_dec_of_colon_free(s2 as nat);
    lemma_sep_split(dec_of(b1 as nat), t1, dec_of(b2 as nat), t2);
    lemma_dec_of_injective(b1 as nat, b2 as nat);
    lemma_sep_split(
        dec_of(s1 as nat),
        i1 + seq![':'] + file_extension_of(k1),
        dec_of(s2 as nat),
        i2 + seq![':'] + file_extension_of(k2),
    );
    lemma_dec_of_injective(s1 as nat, s2 as nat);
    lemma_sep_split(i1, file_extension_of(k1), i2, file_extension_of(k2));
    lemma_extension_injective(k1, k2);
}

/// A single decimal digit as a string slice.
fn digit_str(d: u32) -> (r: &'static str)
    requires
        d < 10,
    ensures
        r@ =~= seq![dec_digit(d as int)],
{
    proof {
        reveal_strlit("0");
        reveal_strlit("1");
        reveal_strlit("2");
        reveal_strlit("3");
        reveal_strlit("4");
        reveal_strlit("5");
        reveal_strlit("6");
        reveal_strlit("7");
        reveal_strlit("8");
        reveal_strlit("9");
    }
    if d == 0 { "0" } else if d == 1 { "1" } else if d == 2 { "2" } else if d == 3 { "3" }
    else if d == 4 { "4" } else if d == 5 { "5" } else if d == 6 { "6" } else if d == 7 { "7" }
    else if d == 8 { "8" } else { "9" }
}

/// Renders a `u32` in decimal, matching `dec_of`.
pub fn render_u32(n: u32) -> (r: String)
    ensures
        r@ == dec_of(n as nat),
    decreases n,
{
    if n < 10 {
        String::from_str(digit_str(n))
    } else {
        let prefix = render_u32(n / 10);
        let r = prefix.concat(digit_str(n % 10));
        proof {
            assert(r@ =~= dec_of(n as nat));
        }
        r
    }
}

/// Renders the composite cache key for a variant of an image.
pub fn render_cache_key(bucket_id: u32, sizing_id: u32, image_id: &str, kind: ImageKind) -> (r: String)
    ensures
        r@ == key_of(bucket_id, sizing_id, image_id@, kind),
{
    proof {
        reveal_strlit(":");
    }
    let mut r = render_u32(bucket_id);
    r.append(":");
    let sizing = render_u32(sizing_id);
    r.append(sizing.as_str());
    r.append(":");
    r.append(image_id);
    r.append(":");
    r.append(kind.as_file_extension());
    proof {
        assert(":"@ =~= seq![':']);
        assert(r@ =~= key_of(bucket_id, sizing_id, image_id@, kind));
    }
    r
}

} // verus!
