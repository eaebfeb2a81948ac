//! Files that are downloaded, and how their sizes read.
use crate::digest::{as_double, coarseness, digest_of, in_tenths, nearest, size_text, Download};
use crate::text::{decimal_text, lowercase, same_folded};
use vstd::prelude::*;

verus! {

/// A download is kept when it has the size and the digest that were announced, whatever
/// the case of the digest's letters.
pub proof fn law_announced_download_is_kept(download: Download)
    requires
        same_folded(download.expected_sha256@, digest_of(download.body@)),
        lowercase(digest_of(download.body@)) == digest_of(download.body@),
    ensures
        download.is_intact() <==> download.expected_size == download.body@.len(),
{
}

/// A download with another digest is not kept, whatever its size is.
pub proof fn law_damaged_download_is_not_kept(download: Download, good: Download)
    requires
        good.is_intact(),
        download.expected_sha256@ == good.expected_sha256@,
        digest_of(download.body@) != digest_of(good.body@),
    ensures
        !download.is_intact(),
{
}

/// Fewer than 1024 bytes are counted.
pub proof fn law_small_sizes(n: int)
    requires
        0 <= n < 1024,
    ensures
        size_text(n) == decimal_text(n) + seq![' ', 'B'],
{
    reveal_strlit(" B");
    assert(" B"@ =~= seq![' ', 'B']);
}

proof fn lemma_nearest(n: int, unit: int, t: int)
    requires
        unit > 0,
        n >= 0,
        -unit < 2 * (n - t * unit) < unit || ((2 * (n - t * unit) == unit || 2 * (n - t * unit)
            == -unit) && t % 2 == 0),
    ensures
        nearest(n, unit) == t,
{
    let below = n / unit;
    let rest = n % unit;
    vstd::arithmetic::div_mod::lemma_fundamental_div_mod(n, unit);
    vstd::arithmetic::div_mod::lemma_mod_bound(n, unit);
    assert(n == unit * below + rest);
    let off = t - below;
    assert(n - t * unit == rest - off * unit) by (nonlinear_arith)
        requires
            n == unit * below + rest,
            off == t - below,
    ;
    assert(off == 0 || off == 1) by (nonlinear_arith)
        requires
            unit > 0,
            0 <= rest < unit,
            -unit <= 2 * (rest - off * unit) <= unit,
    ;
}

/// Sizes are given in tenths of 1024 or of 1048576 bytes, the nearest one, and the even
/// one of two that are equally near.
pub proof fn law_sizes_are_rounded(n: int, t: int)
    requires
        1024 <= n < 0x20_0000_0000_0000,
        ({
            let unit: int = if n < 1048576 {
                1024
            } else {
                1048576
            };
            let error = 10 * n - t * unit;
            -unit < 2 * error < unit || (t % 2 == 0 && -unit <= 2 * error <= unit)
        }),
    ensures
        n < 1048576 ==> size_text(n) == decimal_text(t / 10) + seq!['.'] + decimal_text(t % 10)
            + seq![' ', 'K', 'B'],
        n >= 1048576 ==> size_text(n) == decimal_text(t / 10) + seq!['.'] + decimal_text(t % 10)
            + seq![' ', 'M', 'B'],
{
    reveal_strlit(" KB");
    reveal_strlit(" MB");
    assert(" KB"@ =~= seq![' ', 'K', 'B']);
    assert(" MB"@ =~= seq![' ', 'M', 'B']);
    let unit: int = if n < 1048576 {
        1024
    } else {
        1048576
    };
    assert(coarseness(n, 1) == 1);
    lemma_nearest(n, 1, n);
    assert(as_double(n) == n);
    lemma_nearest(10 * n, unit, t);
    assert(as_double(n) * 10 == 10 * n);
    assert(in_tenths(n, unit) =~= decimal_text(t / 10) + seq!['.'] + decimal_text(t % 10));
}

} // verus!
