//! Controlled L1 centering experiment, enabled through the environment.
//! Centering: `z = W(x - c) + beta`, `beta = b + W c`; checkpoints and the
//! forward pass keep the folded `b`, only optimizer coordinates change.
use vstd::prelude::*;
use crate::env_value::{EnvValue, is_text, spec_is_text};
use crate::error::CudaCppError;
use crate::float_bits::{F32Bits, spec_is_finite};
use crate::training_facts::{RunnerFacts, dense_plain_l1, spec_dense_plain_l1};

verus! {

/// Where the experimental center comes from.
#[derive(Clone, Copy, Debug, PartialEq, Eq, Structural)]
pub enum CenterSource {
    /// This batch's feature means (`batch`).
    BatchMean,
    /// One constant for every feature, the variable's number.
    Constant,
}

/// The center source that `BULLETOU_EXPERIMENT_L1_CENTER` selects.
pub open spec fn spec_center(var: EnvValue) -> Result<Option<CenterSource>, CudaCppError> {
    match var {
        EnvValue::NotPresent => Ok(None),
        EnvValue::NotUnicode => Err(CudaCppError::InvalidExperimentalCenterEnvironment),
        EnvValue::Value(_) => if spec_is_text(var, "batch"@) {
            Ok(Some(CenterSource::BatchMean))
        } else {
            Ok(Some(CenterSource::Constant))
        },
    }
}

/// Reads the experimental center setting: unset means off, `batch` the
/// batch means, any other text a constant.
pub fn center(var: &EnvValue) -> (res: Result<Option<CenterSource>, CudaCppError>)
    ensures
        res == spec_center(*var),
{
    match var {
        EnvValue::NotPresent => Ok(None),
        EnvValue::NotUnicode => Err(CudaCppError::InvalidExperimentalCenterEnvironment),
        EnvValue::Value(_) => if is_text(var, "batch") {
            Ok(Some(CenterSource::BatchMean))
        } else {
            Ok(Some(CenterSource::Constant))
        },
    }
}

/// The constant center for every one of `ft_size` features, from the
/// variable's number (`None` when the text is not a number).
pub fn constant_center(value: Option<F32Bits>, ft_size: usize) -> (res: Result<
    Vec<F32Bits>,
    CudaCppError,
>)
    ensures
        match value {
            None => res == Err::<Vec<F32Bits>, CudaCppError>(
                CudaCppError::InvalidExperimentalCenter,
            ),
            Some(c) => if spec_is_finite(c) {
                res is Ok && res->Ok_0@ == Seq::new(ft_size as nat, |i: int| c)
            } else {
                res == Err::<Vec<F32Bits>, CudaCppError>(CudaCppError::NonfiniteExperimentalCenter)
            },
        },
{
    let c = match value {
        None => return Err(CudaCppError::InvalidExperimentalCenter),
        Some(c) => c,
    };
    if !c.is_finite() {
        return Err(CudaCppError::NonfiniteExperimentalCenter);
    }
    let v = vec![c; ft_size];
    assert(v@ =~= Seq::new(ft_size as nat, |i: int| c));
    Ok(v)
}

/// How a weight matrix is stored.
#[derive(Clone, Copy, Debug, PartialEq, Eq, Structural)]
pub enum Layout {
    /// `[output][input]`: the residual L1 weights.
    RowMajor,
    /// `[input][output]`: the shared L1 factorizer weights.
    ColumnMajor,
}

/// The storage index of `(row, col)` in a `rows x cols` matrix.
pub open spec fn spec_layout_index(layout: Layout, rows: int, cols: int, row: int, col: int) -> int {
    match layout {
        Layout::RowMajor => row * cols + col,
        Layout::ColumnMajor => col * rows + row,
    }
}

/// The storage index of `(row, col)` in a `rows x cols` matrix.
pub fn layout_index(layout: Layout, rows: usize, cols: usize, row: usize, col: usize) -> (i: usize)
    requires
        row < rows,
        col < cols,
        rows * cols <= usize::MAX,
    ensures
        i == spec_layout_index(layout, rows as int, cols as int, row as int, col as int),
        i < rows * cols,
{
    match layout {
        Layout::RowMajor => {
            assert(row * cols + col < rows * cols) by (nonlinear_arith)
                requires
                    row < rows,
                    col < cols,
            ;
            row * cols + col
        },
        Layout::ColumnMajor => {
            assert(col * rows + row < rows * cols) by (nonlinear_arith)
                requires
                    row < rows,
                    col < cols,
            ;
            col * rows + row
        },
    }
}

/// Law: in either layout, distinct cells of a matrix are stored at
/// distinct indices inside the matrix, so every cell is transformed once.
pub proof fn lemma_layout_index_injective(
    layout: Layout,
    rows: int,
    cols: int,
    r1: int,
    c1: int,
    r2: int,
    c2: int,
)
    requires
        0 <= r1 < rows,
        0 <= r2 < rows,
        0 <= c1 < cols,
        0 <= c2 < cols,
        spec_layout_index(layout, rows, cols, r1, c1) == spec_layout_index(layout, rows, cols, r2, c2),
    ensures
        r1 == r2,
        c1 == c2,
        0 <= spec_layout_index(layout, rows, cols, r1, c1) < rows * cols,
{
    match layout {
        Layout::RowMajor => {
            assert(r1 == r2 && c1 == c2 && 0 <= r1 * cols + c1 < rows * cols) by (nonlinear_arith)
                requires
                    0 <= r1 < rows,
                    0 <= r2 < rows,
                    0 <= c1 < cols,
                    0 <= c2 < cols,
                    r1 * cols + c1 == r2 * cols + c2,
            {
                if r1 < r2 {
                    assert(r1 * cols + c1 < (r1 + 1) * cols);
                    assert((r1 + 1) * cols <= r2 * cols);
                } else if r2 < r1 {
                    assert(r2 * cols + c2 < (r2 + 1) * cols);
                    assert((r2 + 1) * cols <= r1 * cols);
                }
            }
        },
        Layout::ColumnMajor => {
            assert(r1 == r2 && c1 == c2 && 0 <= c1 * rows + r1 < rows * cols) by (nonlinear_arith)
                requires
                    0 <= r1 < rows,
                    0 <= r2 < rows,
                    0 <= c1 < cols,
                    0 <= c2 < cols,
                    c1 * rows + r1 == c2 * rows + r2,
            {
                if c1 < c2 {
                    assert(c1 * rows + r1 < (c1 + 1) * rows);
                    assert((c1 + 1) * rows <= c2 * rows);
                } else if c2 < c1 {
                    assert(c2 * rows + r2 < (c2 + 1) * rows);
                    assert((c2 + 1) * rows <= c1 * rows);
                }
            }
        },
    }
}

/// The L1 weight groups that the experimental centering transforms: the
/// residual weights always, the shared factorizer when there is one.
pub open spec fn spec_transform(r: RunnerFacts) -> Result<Seq<Layout>, CudaCppError> {
    if !spec_dense_plain_l1(r) {
        Err(CudaCppError::ExperimentalCenterUnsupported)
    } else if r.shared_factorizer {
        Ok(seq![Layout::RowMajor, Layout::ColumnMajor])
    } else {
        Ok(seq![Layout::RowMajor])
    }
}

/// Checks the layout and lists the weight groups to move between folded
/// and centered coordinates, in order.
pub fn transform(r: &RunnerFacts) -> (res: Result<Vec<Layout>, CudaCppError>)
    ensures
        match spec_transform(*r) {
            Ok(groups) => res is Ok && res->Ok_0@ == groups,
            Err(e) => res == Err::<Vec<Layout>, CudaCppError>(e),
        },
{
    if !dense_plain_l1(r) {
        return Err(CudaCppError::ExperimentalCenterUnsupported);
    }
    let mut groups: Vec<Layout> = Vec::new();
    groups.push(Layout::RowMajor);
    if r.shared_factorizer {
        groups.push(Layout::ColumnMajor);
    }
    assert(groups@ =~= spec_transform(*r)->Ok_0);
    Ok(groups)
}

} // verus!
