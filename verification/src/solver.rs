//! The rules around the linear solvers: which method is used on which
//! system, and which systems are refused.
//!
//! The arithmetic of the methods is not done here; what is decided here are
//! the questions that have exact answers.
use vstd::prelude::*;
use crate::decimal::Decimal;
use crate::scalar::Scalar;

verus! {

/// The methods by which a system can be solved.
#[derive(Debug, Clone, Copy, PartialEq, Eq, Structural)]
pub enum SolverMethod {
    /// LU decomposition.
    Lu,
    /// QR decomposition.
    Qr,
    /// Conjugate gradients, for symmetric positive definite matrices.
    Cg,
    /// BiCGSTAB, for general sparse matrices.
    BiCgStab,
}

/// How a solver is to work.
#[derive(Debug, Clone, Copy, PartialEq, Eq, Structural)]
pub struct SolverConfig {
    pub method: SolverMethod,
    pub tolerance: Decimal,
    pub max_iterations: usize,
    pub use_pivoting: bool,
    pub check_condition_number: bool,
}

impl SolverConfig {
    /// LU with pivoting, a tolerance of `1e-12` and at most 1000 iterations.
    pub open spec fn standard() -> SolverConfig {
        SolverConfig {
            method: SolverMethod::Lu,
            tolerance: Decimal { negative: false, mantissa: 1, exponent: -12i32 },
            max_iterations: 1000,
            use_pivoting: true,
            check_condition_number: false,
        }
    }
}

impl Default for SolverConfig {
    fn default() -> (r: SolverConfig)
        ensures
            r == SolverConfig::standard(),
    {
        SolverConfig {
            method: SolverMethod::Lu,
            tolerance: Decimal { negative: false, mantissa: 1, exponent: -12 },
            max_iterations: 1000,
            use_pivoting: true,
            check_condition_number: false,
        }
    }
}

/// What a solver reports of one solve.
#[derive(Debug, Clone, Copy, PartialEq, Eq, Structural)]
pub struct SolverStats {
    pub method_used: SolverMethod,
    pub iterations: usize,
    pub residual_norm: Scalar,
    /// The time that the solve took, in seconds.
    pub solve_time: Scalar,
    pub success: bool,
    pub condition_number: Option<Scalar>,
}

/// Why a system is refused before any arithmetic.
#[derive(Debug, Clone, Copy, PartialEq, Eq, Structural)]
pub enum ShapeError {
    /// The matrix has `rows` rows and `cols` columns.
    NotSquare { rows: usize, cols: usize },
    /// The matrix has `rows` rows, the right-hand side `rhs` entries.
    DimensionMismatch { rows: usize, rhs: usize },
}

/// The verdict on the shape of a system: the matrix must be square and the
/// right-hand side as long as the matrix has rows.
pub open spec fn shape_verdict(rows: usize, cols: usize, rhs: usize) -> Result<(), ShapeError> {
    if rows != cols {
        Err(ShapeError::NotSquare { rows, cols })
    } else if rows != rhs {
        Err(ShapeError::DimensionMismatch { rows, rhs })
    } else {
        Ok(())
    }
}

/// The method that is used on a dense matrix where `wanted` is configured:
/// QR where it is wanted, LU in every other case.
pub open spec fn dense_method(wanted: SolverMethod) -> SolverMethod {
    match wanted {
        SolverMethod::Qr => SolverMethod::Qr,
        _ => SolverMethod::Lu,
    }
}

/// The method that is used on a sparse matrix where `wanted` is configured:
/// the iterative methods where they are wanted, LU in every other case.
pub open spec fn sparse_method(wanted: SolverMethod) -> SolverMethod {
    match wanted {
        SolverMethod::Cg => SolverMethod::Cg,
        SolverMethod::BiCgStab => SolverMethod::BiCgStab,
        _ => SolverMethod::Lu,
    }
}

/// The method that suits a sparse matrix of `size` rows with `nnz` entries:
/// LU where the matrix is small (under 100 rows) or dense (more than a tenth
/// of its places filled), else conjugate gradients where it is symmetric,
/// else BiCGSTAB.
pub open spec fn suited_method(size: usize, nnz: usize, symmetric: bool) -> SolverMethod {
    if size < 100 || 10 * nnz > size * size {
        SolverMethod::Lu
    } else if symmetric {
        SolverMethod::Cg
    } else {
        SolverMethod::BiCgStab
    }
}

impl SolverMethod {
    /// The name of the method.
    pub open spec fn name_spec(self) -> Seq<char> {
        match self {
            SolverMethod::Lu => "Lu"@,
            SolverMethod::Qr => "Qr"@,
            SolverMethod::Cg => "Cg"@,
            SolverMethod::BiCgStab => "BiCgStab"@,
        }
    }

    /// The name of the method.
    pub fn name(&self) -> (r: String)
        ensures
            r@ == self.name_spec(),
    {
        match self {
            SolverMethod::Lu => "Lu".to_owned(),
            SolverMethod::Qr => "Qr".to_owned(),
            SolverMethod::Cg => "Cg".to_owned(),
            SolverMethod::BiCgStab => "BiCgStab".to_owned(),
        }
    }
}

/// A solver with its configuration.
#[derive(Debug, Clone, Copy)]
pub struct LinearSolver {
    pub config: SolverConfig,
}

impl LinearSolver {
    /// A solver with the standard configuration.
    pub fn new() -> (r: LinearSolver)
        ensures
            r.config == SolverConfig::standard(),
    {
        LinearSolver { config: SolverConfig::default() }
    }

    /// A solver with the given configuration.
    pub fn with_config(config: SolverConfig) -> (r: LinearSolver)
        ensures
            r.config == config,
    {
        LinearSolver { config }
    }

    /// Decides how a dense system of the given shape is solved: refuses a
    /// shape that is no system, else names the method.
    pub fn plan_dense(&self, rows: usize, cols: usize, rhs: usize) -> (r: Result<
        SolverMethod,
        ShapeError,
    >)
        ensures
            r == (match shape_verdict(rows, cols, rhs) {
                Err(e) => Err::<SolverMethod, ShapeError>(e),
                Ok(()) => Ok(dense_method(self.config.method)),
            }),
    {
        match check_shape(rows, cols, rhs) {
            Err(e) => Err(e),
            Ok(()) => Ok(
                match self.config.method {
                    SolverMethod::Qr => SolverMethod::Qr,
                    _ => SolverMethod::Lu,
                },
            ),
        }
    }

    /// Decides how a sparse system of the given shape is solved: refuses a
    /// shape that is no system, else names the method.
    pub fn plan_sparse(&self, rows: usize, cols: usize, rhs: usize) -> (r: Result<
        SolverMethod,
        ShapeError,
    >)
        ensures
            r == (match shape_verdict(rows, cols, rhs) {
                Err(e) => Err::<SolverMethod, ShapeError>(e),
                Ok(()) => Ok(sparse_method(self.config.method)),
            }),
    {
        match check_shape(rows, cols, rhs) {
            Err(e) => Err(e),
            Ok(()) => Ok(
                match self.config.method {
                    SolverMethod::Cg => SolverMethod::Cg,
                    SolverMethod::BiCgStab => SolverMethod::BiCgStab,
                    _ => SolverMethod::Lu,
                },
            ),
        }
    }
}

/// Checks the shape of a system.
pub fn check_shape(rows: usize, cols: usize, rhs: usize) -> (r: Result<(), ShapeError>)
    ensures
        r == shape_verdict(rows, cols, rhs),
{
    if rows != cols {
        Err(ShapeError::NotSquare { rows, cols })
    } else if rows != rhs {
        Err(ShapeError::DimensionMismatch { rows, rhs })
    } else {
        Ok(())
    }
}

/// Picks the method for a sparse matrix of `size` rows and columns with
/// `nnz` entries, of which the caller says whether it is symmetric.
pub fn auto_select_solver(size: usize, nnz: usize, symmetric: bool) -> (r: SolverMethod)
    ensures
        r == suited_method(size, nnz, symmetric),
{
    let filled: u128 = 10 * (nnz as u128);
    assert(size * size <= 0xffff_ffff_ffff_ffff * 0xffff_ffff_ffff_ffff) by (nonlinear_arith)
        requires
            size <= 0xffff_ffff_ffff_ffff,
    ;
    let places: u128 = (size as u128) * (size as u128);
    if size < 100 || filled > places {
        SolverMethod::Lu
    } else if symmetric {
        SolverMethod::Cg
    } else {
        SolverMethod::BiCgStab
    }
}

/// A small matrix is always given to LU.
pub proof fn lemma_small_goes_to_lu(size: usize, nnz: usize, symmetric: bool)
    requires
        size < 100,
    ensures
        suited_method(size, nnz, symmetric) == SolverMethod::Lu,
{
}

/// A symmetric matrix of at least 100 rows with nothing off its diagonal is
/// given to conjugate gradients.
pub proof fn lemma_large_diagonal_goes_to_cg(size: usize, nnz: usize)
    requires
        size >= 100,
        nnz <= size,
    ensures
        suited_method(size, nnz, true) == SolverMethod::Cg,
{
    assert(10 * nnz <= size * size) by (nonlinear_arith)
        requires
            size >= 100,
            nnz <= size,
    ;
}

impl Default for LinearSolver {
    fn default() -> (r: LinearSolver)
        ensures
            r.config == SolverConfig::standard(),
    {
        LinearSolver::new()
    }
}

} // verus!
