use vstd::prelude::*;
use crate::error::AnalysisError;
use crate::series::SampleRange;

verus! {

/// How a run of samples is cut into windows for averaging: `count` windows of
/// `cluster_size` samples each, laid end to end from the first sample on.
#[derive(Clone, Copy, Debug, PartialEq, Eq, Structural)]
pub struct WindowLayout {
    pub cluster_size: usize,
    pub count: usize,
}

/// The number of whole windows of `cluster_size` samples in `len` samples.
pub open spec fn whole_windows(len: nat, cluster_size: nat) -> nat {
    if cluster_size == 0 {
        0
    } else {
        len / cluster_size
    }
}

/// What cutting `len` samples into windows of `cluster_size` gives: an error
/// for a window size of zero or for fewer than two whole windows, else the
/// layout with every whole window.
pub open spec fn layout_of(len: usize, cluster_size: nat) -> Result<WindowLayout, AnalysisError> {
    if cluster_size == 0 {
        Err(AnalysisError::ClusterTooSmall)
    } else if len as nat / cluster_size < 2 {
        Err(AnalysisError::InsufficientClusters)
    } else {
        Ok(
            WindowLayout {
                cluster_size: cluster_size as usize,
                count: (len as nat / cluster_size) as usize,
            },
        )
    }
}

/// Cuts `len` samples into windows of `cluster_size` samples that do not
/// overlap. Samples left over behind the last whole window belong to no
/// window.
pub fn windows_non_overlapping(len: usize, cluster_size: usize) -> (r: Result<
    WindowLayout,
    AnalysisError,
>)
    ensures
        r == layout_of(len, cluster_size as nat),
{
    if cluster_size == 0 {
        return Err(AnalysisError::ClusterTooSmall);
    }
    let n_clusters: usize = len / cluster_size;
    if n_clusters < 2 {
        return Err(AnalysisError::InsufficientClusters);
    }
    Ok(WindowLayout { cluster_size, count: n_clusters })
}

impl WindowLayout {
    /// The samples of window `k`, as positions counted from the first sample
    /// that was cut.
    pub open spec fn window_at(self, k: int) -> SampleRange {
        SampleRange {
            start: (k * self.cluster_size) as usize,
            end: (k * self.cluster_size + self.cluster_size) as usize,
        }
    }

    /// Whether the layout has a window `k` whose positions can be written
    /// down.
    pub open spec fn has_window(self, k: int) -> bool {
        0 <= k < self.count && k * self.cluster_size + self.cluster_size <= usize::MAX
    }

    /// The number of samples that the windows hold together.
    pub open spec fn samples_used(self) -> nat {
        (self.count * self.cluster_size) as nat
    }

    /// Window `k` of the layout when it is laid over `range`, by the positions
    /// that `range` itself is written in.
    pub open spec fn window_in_at(self, range: SampleRange, k: int) -> SampleRange {
        SampleRange {
            start: (range.start + k * self.cluster_size) as usize,
            end: (range.start + k * self.cluster_size + self.cluster_size) as usize,
        }
    }

    /// Whether the layout, laid over `range`, has a window `k` that lies
    /// within `range`.
    pub open spec fn fits_in(self, range: SampleRange, k: int) -> bool {
        0 <= k < self.count && range.start + k * self.cluster_size + self.cluster_size
            <= range.end
    }

    /// The samples of window `k`, or `None` where the layout has no such
    /// window.
    pub fn window(&self, k: usize) -> (r: Option<SampleRange>)
        ensures
            r == if self.has_window(k as int) {
                Some(self.window_at(k as int))
            } else {
                None::<SampleRange>
            },
    {
        if k >= self.count {
            return None;
        }
        match k.checked_mul(self.cluster_size) {
            None => None,
            Some(start) => match start.checked_add(self.cluster_size) {
                None => None,
                Some(end) => Some(SampleRange { start, end }),
            },
        }
    }

    /// The samples of window `k` when the layout is laid over `range`, by
    /// the positions that `range` itself is written in, or `None` where the
    /// window does not lie within `range`.
    pub fn window_in(&self, range: &SampleRange, k: usize) -> (r: Option<SampleRange>)
        ensures
            r == if self.fits_in(*range, k as int) {
                Some(self.window_in_at(*range, k as int))
            } else {
                None::<SampleRange>
            },
    {
        match self.window(k) {
            None => {
                proof {
                    if 0 <= k < self.count {
                        assert(0 <= k * self.cluster_size) by (nonlinear_arith);
                    }
                }
                None
            },
            Some(window) => {
                if range.start <= range.end && window.end <= range.end - range.start {
                    Some(
                        SampleRange {
                            start: range.start + window.start,
                            end: range.start + window.end,
                        },
                    )
                } else {
                    None
                }
            },
        }
    }
}

/// Window `k` of `len` samples cut by `cluster_size` lies within those
/// samples.
pub proof fn lemma_window_within(len: nat, cluster_size: nat, k: int)
    requires
        cluster_size > 0,
        0 <= k < whole_windows(len, cluster_size),
    ensures
        0 <= k * cluster_size,
        k * cluster_size + cluster_size <= len,
{
    let n = len / cluster_size;
    vstd::arithmetic::div_mod::lemma_fundamental_div_mod(len as int, cluster_size as int);
    vstd::arithmetic::div_mod::lemma_mod_bound(len as int, cluster_size as int);
    assert(0 <= k * cluster_size && (k + 1) * cluster_size <= n * cluster_size)
        by (nonlinear_arith)
        requires
            0 <= k,
            k + 1 <= n,
            cluster_size > 0,
    ;
    assert((k + 1) * cluster_size == k * cluster_size + cluster_size) by (nonlinear_arith);
    assert(n * cluster_size == cluster_size * n) by (nonlinear_arith);
}

/// A layout that `layout_of` gives has each of its windows: window `k` holds
/// `cluster_size` samples, from position `k * cluster_size` on, all of them
/// among the `len` samples that were cut.
pub proof fn lemma_layout_windows(len: usize, cluster_size: usize, k: int)
    requires
        layout_of(len, cluster_size as nat) is Ok,
        0 <= k < layout_of(len, cluster_size as nat)->Ok_0.count,
    ensures
        ({
            let layout = layout_of(len, cluster_size as nat)->Ok_0;
            &&& layout.has_window(k)
            &&& layout.window_at(k).start == k * cluster_size
            &&& layout.window_at(k).end == k * cluster_size + cluster_size
            &&& layout.window_at(k).end <= len
            &&& layout.window_at(k).count() == cluster_size
        }),
{
    lemma_window_within(len as nat, cluster_size as nat, k);
}

/// Windows follow each other without a gap: each starts where the one before
/// it ends.
pub proof fn lemma_windows_adjacent(layout: WindowLayout, k: int)
    requires
        layout.has_window(k),
        layout.has_window(k + 1),
    ensures
        layout.window_at(k).end == layout.window_at(k + 1).start,
{
    assert((k + 1) * layout.cluster_size == k * layout.cluster_size + layout.cluster_size)
        by (nonlinear_arith);
}

/// Windows do not overlap: no position lies in two of them.
pub proof fn lemma_windows_disjoint(layout: WindowLayout, j: int, k: int, i: int)
    requires
        layout.has_window(j),
        layout.has_window(k),
        j != k,
    ensures
        !(layout.window_at(j).contains(i) && layout.window_at(k).contains(i)),
{
    let c = layout.cluster_size as int;
    if j < k {
        assert(j * c + c <= k * c) by (nonlinear_arith)
            requires
                j + 1 <= k,
                c >= 0,
        ;
    } else {
        assert(k * c + c <= j * c) by (nonlinear_arith)
            requires
                k + 1 <= j,
                c >= 0,
        ;
    }
}

/// The samples behind the last window are fewer than one window: only a
/// partial window is ever left out.
pub proof fn lemma_leftover_partial(len: usize, cluster_size: usize)
    requires
        layout_of(len, cluster_size as nat) is Ok,
    ensures
        ({
            let layout = layout_of(len, cluster_size as nat)->Ok_0;
            layout.samples_used() <= len < layout.samples_used() + cluster_size
        }),
{
    let n = len as int / cluster_size as int;
    vstd::arithmetic::div_mod::lemma_fundamental_div_mod(len as int, cluster_size as int);
    vstd::arithmetic::div_mod::lemma_mod_bound(len as int, cluster_size as int);
    assert(n * cluster_size == cluster_size * n) by (nonlinear_arith);
}

/// The layout of the samples of a range fits that range: laid over it, each
/// of its windows lies within it.
pub proof fn lemma_layout_fits(range: SampleRange, cluster_size: usize, k: int)
    requires
        range.start <= range.end,
        layout_of(range.count() as usize, cluster_size as nat) is Ok,
        0 <= k < layout_of(range.count() as usize, cluster_size as nat)->Ok_0.count,
    ensures
        ({
            let layout = layout_of(range.count() as usize, cluster_size as nat)->Ok_0;
            &&& layout.fits_in(range, k)
            &&& layout.window_in_at(range, k).start == range.start + k * cluster_size
            &&& layout.window_in_at(range, k).end == range.start + k * cluster_size
                + cluster_size
            &&& layout.window_in_at(range, k).count() == cluster_size
        }),
{
    lemma_window_within(range.count(), cluster_size as nat, k);
}

} // verus!
