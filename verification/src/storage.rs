//! Disk usage of a project, split into working files and `.git` history, and
//! the repository-health label derived from it.

use vstd::prelude::*;
use crate::types::{round_half_even, round_half_even_exec};

verus! {

/// Bytes of one project directory.
#[derive(Clone, Debug)]
pub struct ProjectDiskStats {
    pub path: String,
    /// Bytes outside `.git`.
    pub working_bytes: u64,
    /// Bytes inside `.git` (history, objects, packs).
    pub git_bytes: u64,
}

impl ProjectDiskStats {
    pub fn total_bytes(&self) -> (r: u64)
        requires
            self.working_bytes + self.git_bytes <= u64::MAX,
        ensures
            r == self.working_bytes + self.git_bytes,
    {
        self.working_bytes + self.git_bytes
    }
}

/// `2^24`: below it every integer is exactly an `f32`.
pub open spec fn pow24() -> nat {
    0x100_0000
}

/// The power of two `d` (at most `fuel` doublings from the start) from which
/// on `b / d` has fewer than 24 bits.
pub open spec fn f32_scale(b: nat, d: nat, fuel: nat) -> nat
    decreases fuel,
{
    if fuel == 0 || b / d < pow24() || d > b {
        d
    } else {
        f32_scale(b, 2 * d, (fuel - 1) as nat)
    }
}

/// The value of `b as f32` for a `u64` `b`: `b` rounded to 24 significant
/// bits, ties to even.
pub open spec fn f32_of(b: nat) -> nat {
    let d = f32_scale(b, 1, 64);
    round_half_even(b, d) * d
}

/// Whether `git as f32 / total as f32`, rounded to `f32`, is below `0.2f32`.
/// `0.2f32` is `13421773 / 2^26`; a quotient rounds below it exactly when it
/// is at most the midpoint `26843545 / 2^27` between it and the `f32` just
/// below, whose even significand takes the tie.
pub open spec fn ratio_below_fifth(git: nat, total: nat) -> bool {
    f32_of(git) * 0x800_0000 <= 26843545 * f32_of(total)
}

/// Whether `git as f32 / total as f32`, rounded to `f32`, is below `0.5`: the
/// quotient must lie below the midpoint `(2^25 - 1) / 2^26` between `0.5` and
/// the `f32` just below it (a tie rounds to `0.5`, whose significand is even).
pub open spec fn ratio_below_half(git: nat, total: nat) -> bool {
    f32_of(git) * 0x400_0000 < 0x1FF_FFFF * f32_of(total)
}

/// Label and tone of a project's repository health, from the share of its
/// bytes that is `.git` history: empty, under a fifth, under a half, or more.
pub open spec fn spec_repo_health(working: nat, git: nat) -> (Seq<char>, Seq<char>) {
    let total = working + git;
    if total == 0 {
        ("Empty"@, "muted"@)
    } else if ratio_below_fifth(git, total) {
        ("Healthy"@, "success"@)
    } else if ratio_below_half(git, total) {
        ("Large history"@, "warning"@)
    } else {
        ("Bloaty"@, "danger"@)
    }
}

fn f32_of_exec(b: u64) -> (r: u128)
    ensures
        r == f32_of(b as nat),
        r <= 0x2_0000_0000_0000_0000u128,
{
    let bb = b as u128;
    let mut d: u128 = 1;
    let mut fuel: u64 = 64;
    while fuel > 0 && bb / d >= 0x100_0000u128 && d <= bb
        invariant
            1 <= d <= 0x2_0000_0000_0000_0000u128,
            bb == b as u128,
            f32_scale(b as nat, d as nat, fuel as nat) == f32_scale(b as nat, 1, 64),
        decreases fuel,
    {
        assert(f32_scale(b as nat, d as nat, fuel as nat) == f32_scale(
            b as nat,
            (2 * d) as nat,
            (fuel - 1) as nat,
        ));
        d = d * 2;
        fuel = fuel - 1;
    }
    let m = round_half_even_exec(bb, d);
    proof {
        vstd::arithmetic::div_mod::lemma_fundamental_div_mod(bb as int, d as int);
        let q = (bb / d) as int;
        assert(m <= q + 1);
        assert(m * d <= q * d + d) by (nonlinear_arith)
            requires
                m <= q + 1,
                d >= 1,
        ;
        assert(q * d == d * q) by (nonlinear_arith);
    }
    m * d
}

/// Repository-health label and tone of a project.
pub fn repo_health(stats: &ProjectDiskStats) -> (r: (&'static str, &'static str))
    requires
        stats.working_bytes + stats.git_bytes <= u64::MAX,
    ensures
        (r.0@, r.1@) == spec_repo_health(stats.working_bytes as nat, stats.git_bytes as nat),
{
    let total = stats.total_bytes();
    if total == 0 {
        return ("Empty", "muted");
    }
    let g = f32_of_exec(stats.git_bytes);
    let t = f32_of_exec(total);
    if g * 0x800_0000u128 <= 26843545u128 * t {
        ("Healthy", "success")
    } else if g * 0x400_0000u128 < 0x1FF_FFFFu128 * t {
        ("Large history", "warning")
    } else {
        ("Bloaty", "danger")
    }
}


/// A project with files and no `.git` history is healthy.
pub proof fn law_no_history_is_healthy(working: nat)
    requires
        working > 0,
    ensures
        spec_repo_health(working, 0) == ("Healthy"@, "success"@),
{
    assert(f32_scale(0, 1, 64) == 1);
}


/// Bytes of a project, working files and history together.
pub open spec fn size_of(r: ProjectDiskStats) -> nat {
    (r.working_bytes + r.git_bytes) as nat
}

/// Number of leading rows at least `size` bytes large.
pub open spec fn lead_larger(s: Seq<ProjectDiskStats>, size: nat) -> nat
    decreases s.len(),
{
    if s.len() > 0 && size_of(s[0]) >= size {
        1 + lead_larger(s.drop_first(), size)
    } else {
        0
    }
}

proof fn lemma_lead_larger(s: Seq<ProjectDiskStats>, size: nat, k: int)
    requires
        0 <= k <= s.len(),
        forall|i: int| 0 <= i < k ==> size_of(#[trigger] s[i]) >= size,
        k < s.len() ==> size_of(s[k]) < size,
    ensures
        lead_larger(s, size) == k,
    decreases k,
{
    if k > 0 {
        assert forall|i: int| 0 <= i < k - 1 implies size_of(#[trigger] s.drop_first()[i]) >= size by {
            assert(s.drop_first()[i] == s[i + 1]);
        }
        if k - 1 < s.drop_first().len() {
            assert(s.drop_first()[k - 1] == s[k]);
        }
        lemma_lead_larger(s.drop_first(), size, k - 1);
    }
}

/// The storage page's rows, largest project first; projects of equal size
/// keep their order.
pub open spec fn largest_first(s: Seq<ProjectDiskStats>) -> Seq<ProjectDiskStats>
    decreases s.len(),
{
    if s.len() == 0 {
        s
    } else {
        let t = largest_first(s.drop_last());
        t.insert(lead_larger(t, size_of(s.last())) as int, s.last())
    }
}

/// Orders the storage page's rows largest project first.
pub fn order_by_size(rows: &mut Vec<ProjectDiskStats>)
    requires
        forall|i: int| 0 <= i < old(rows)@.len() ==> size_of(#[trigger] old(rows)@[i]) <= u64::MAX,
    ensures
        final(rows)@ == largest_first(old(rows)@),
{
    let ghost orig = rows@;
    let n = rows.len();
    let mut sorted: Vec<ProjectDiskStats> = Vec::new();
    let mut i: usize = 0;
    assert(orig.take(0) =~= Seq::<ProjectDiskStats>::empty());
    while i < n
        invariant
            n == orig.len(),
            i <= n,
            rows@ == orig.skip(i as int),
            sorted@ == largest_first(orig.take(i as int)),
            forall|j: int| 0 <= j < orig.len() ==> size_of(#[trigger] orig[j]) <= u64::MAX,
            forall|j: int| 0 <= j < sorted@.len() ==> size_of(#[trigger] sorted@[j]) <= u64::MAX,
        decreases n - i,
    {
        let r = rows.remove(0);
        assert(r == orig[i as int]);
        let size = r.total_bytes();
        let ghost prev = sorted@;
        let mut k: usize = 0;
        while k < sorted.len() && sorted[k].total_bytes() >= size
            invariant
                k <= sorted@.len(),
                sorted@ == prev,
                size == size_of(r),
                forall|j: int| 0 <= j < sorted@.len() ==> size_of(#[trigger] sorted@[j]) <= u64::MAX,
                forall|j: int| 0 <= j < k ==> size_of(#[trigger] sorted@[j]) >= size,
            decreases sorted@.len() - k,
        {
            k = k + 1;
        }
        proof {
            lemma_lead_larger(prev, size_of(r), k as int);
            assert(orig.take(i + 1).drop_last() =~= orig.take(i as int));
            assert(orig.take(i + 1).last() == r);
            assert(orig.skip(i as int).drop_first() =~= orig.skip(i + 1));
        }
        sorted.insert(k, r);
        proof {
            assert forall|j: int| 0 <= j < sorted@.len() implies size_of(#[trigger] sorted@[j])
                <= u64::MAX by {
                if j < k {
                    assert(sorted@[j] == prev[j]);
                } else if j > k {
                    assert(sorted@[j] == prev[j - 1]);
                }
            }
        }
        i = i + 1;
    }
    assert(orig.take(n as int) =~= orig);
    *rows = sorted;
}

/// Total bytes of all rows.
pub open spec fn sum_sizes(s: Seq<ProjectDiskStats>) -> nat
    decreases s.len(),
{
    if s.len() == 0 {
        0
    } else {
        sum_sizes(s.drop_last()) + size_of(s.last())
    }
}

/// `.git` bytes of all rows.
pub open spec fn sum_git(s: Seq<ProjectDiskStats>) -> nat
    decreases s.len(),
{
    if s.len() == 0 {
        0
    } else {
        sum_git(s.drop_last()) + s.last().git_bytes as nat
    }
}

proof fn lemma_sums_grow(s: Seq<ProjectDiskStats>, i: int)
    requires
        0 <= i <= s.len(),
    ensures
        sum_sizes(s.take(i)) <= sum_sizes(s),
        sum_git(s.take(i)) <= sum_git(s),
    decreases s.len() - i,
{
    if i < s.len() {
        lemma_sums_grow(s, i + 1);
        assert(s.take(i + 1).drop_last() =~= s.take(i));
    } else {
        assert(s.take(i) =~= s);
    }
}

/// Total bytes and total `.git` bytes shown at the top of the storage page.
pub fn storage_totals(rows: &Vec<ProjectDiskStats>) -> (r: (u64, u64))
    requires
        sum_sizes(rows@) <= u64::MAX,
        sum_git(rows@) <= u64::MAX,
    ensures
        r.0 == sum_sizes(rows@),
        r.1 == sum_git(rows@),
{
    let mut total: u64 = 0;
    let mut git: u64 = 0;
    let mut i: usize = 0;
    assert(rows@.take(0) =~= Seq::<ProjectDiskStats>::empty());
    while i < rows.len()
        invariant
            i <= rows@.len(),
            sum_sizes(rows@) <= u64::MAX,
            sum_git(rows@) <= u64::MAX,
            total == sum_sizes(rows@.take(i as int)),
            git == sum_git(rows@.take(i as int)),
        decreases rows@.len() - i,
    {
        proof {
            lemma_sums_grow(rows@, i + 1);
            assert(rows@.take(i + 1).drop_last() =~= rows@.take(i as int));
            assert(rows@.take(i + 1).last() == rows@[i as int]);
        }
        let r = &rows[i];
        total = total + r.working_bytes + r.git_bytes;
        git = git + r.git_bytes;
        i = i + 1;
    }
    assert(rows@.take(i as int) =~= rows@);
    (total, git)
}

} // verus!
