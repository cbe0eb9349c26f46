//! Pre-computed size constants of single-modulus GLWE, GLev and GGSW
//! ciphertexts.
use crate::arith::is_power_of_two;
use vstd::prelude::*;

verus! {

/// Valid GLWE shape: `k > 0`, `N` a power of two with `N >= 2`, and the
/// ciphertext length `(k + 1)N` representable in `usize`.
pub open spec fn glwe_shape_ok(dimension: nat, poly_length: nat) -> bool {
    &&& dimension > 0
    &&& poly_length >= 2
    &&& is_power_of_two(poly_length)
    &&& (dimension + 1) * poly_length <= usize::MAX
}

/// Valid GLev shape over a GLWE shape: a non-zero decomposition length and
/// a GGSW length `(k + 1) * l * (k + 1)N` representable in `usize`.
pub open spec fn glev_shape_ok(dimension: nat, poly_length: nat, decompose_length: nat) -> bool {
    &&& glwe_shape_ok(dimension, poly_length)
    &&& decompose_length > 0
    &&& (dimension + 1) * (decompose_length * ((dimension + 1) * poly_length)) <= usize::MAX
}

/// Pre-computed size constants for a single-modulus GLWE ciphertext.
#[derive(Debug, Clone, Copy, PartialEq, Eq, Structural)]
pub struct GlweCommonSize {
    dimension: usize,
    poly_length: usize,
    glwe_mid: usize,
    glwe_len: usize,
}

impl GlweCommonSize {
    #[verifier::type_invariant]
    closed spec fn inv(self) -> bool {
        &&& glwe_shape_ok(self.dimension as nat, self.poly_length as nat)
        &&& self.glwe_mid == self.dimension * self.poly_length
        &&& self.glwe_len == (self.dimension + 1) * self.poly_length
    }

    /// The GLWE dimension `k`.
    pub closed spec fn dimension_spec(self) -> nat {
        self.dimension as nat
    }

    /// The polynomial length `N`.
    pub closed spec fn poly_length_spec(self) -> nat {
        self.poly_length as nat
    }

    /// The mask length `kN`.
    pub open spec fn glwe_mid_spec(self) -> nat {
        self.dimension_spec() * self.poly_length_spec()
    }

    /// The ciphertext length `(k + 1)N`.
    pub open spec fn glwe_len_spec(self) -> nat {
        (self.dimension_spec() + 1) * self.poly_length_spec()
    }

    /// Creates GLWE size constants for dimension `k` and polynomial length `N`.
    pub fn new(dimension: usize, poly_length: usize) -> (s: Self)
        requires
            glwe_shape_ok(dimension as nat, poly_length as nat),
        ensures
            s.dimension_spec() == dimension,
            s.poly_length_spec() == poly_length,
    {
        proof {
            assert(dimension * poly_length <= (dimension + 1) * poly_length) by (nonlinear_arith);
            assert(dimension + 1 <= (dimension + 1) * poly_length) by (nonlinear_arith)
                requires
                    poly_length >= 2,
            ;
        }
        let component_count = dimension + 1;
        let glwe_mid = dimension * poly_length;
        let glwe_len = component_count * poly_length;
        GlweCommonSize { dimension, poly_length, glwe_mid, glwe_len }
    }

    /// Returns the GLWE dimension `k`.
    pub fn dimension(self) -> (r: usize)
        ensures
            r == self.dimension_spec(),
            glwe_shape_ok(self.dimension_spec(), self.poly_length_spec()),
    {
        proof {
            use_type_invariant(&self);
        }
        self.dimension
    }

    /// Returns the polynomial length `N`.
    pub fn poly_length(self) -> (r: usize)
        ensures
            r == self.poly_length_spec(),
            glwe_shape_ok(self.dimension_spec(), self.poly_length_spec()),
    {
        proof {
            use_type_invariant(&self);
        }
        self.poly_length
    }

    /// Returns the coefficient/NTT mask length `kN`.
    pub fn glwe_mid(self) -> (r: usize)
        ensures
            r == self.glwe_mid_spec(),
    {
        proof {
            use_type_invariant(&self);
        }
        self.glwe_mid
    }

    /// Returns the coefficient/NTT GLWE ciphertext length `(k + 1)N`.
    pub fn glwe_len(self) -> (r: usize)
        ensures
            r == self.glwe_len_spec(),
    {
        proof {
            use_type_invariant(&self);
        }
        self.glwe_len
    }

    /// Returns the coefficient-domain secret-key length `kN`.
    pub fn secret_key_len(self) -> (r: usize)
        ensures
            r == self.glwe_mid_spec(),
    {
        proof {
            use_type_invariant(&self);
        }
        self.glwe_mid
    }

    /// Returns the Fourier mask length `kN/2`.
    pub fn fourier_glwe_mid(self) -> (r: usize)
        ensures
            r == self.glwe_mid_spec() / 2,
    {
        proof {
            use_type_invariant(&self);
        }
        self.glwe_mid / 2
    }

    /// Returns the Fourier GLWE ciphertext length `(k + 1)N/2`.
    pub fn fourier_glwe_len(self) -> (r: usize)
        ensures
            r == self.glwe_len_spec() / 2,
    {
        proof {
            use_type_invariant(&self);
        }
        self.glwe_len / 2
    }
}

/// Pre-computed size constants for single-modulus GLev and GGSW ciphertexts.
#[derive(Debug, Clone, Copy, PartialEq, Eq, Structural)]
pub struct GlevCommonSize {
    glwe_common_size: GlweCommonSize,
    decompose_length: usize,
    glev_len: usize,
    ggsw_len: usize,
}

impl GlevCommonSize {
    #[verifier::type_invariant]
    closed spec fn inv(self) -> bool {
        &&& glev_shape_ok(
            self.glwe_common_size.dimension_spec(),
            self.glwe_common_size.poly_length_spec(),
            self.decompose_length as nat,
        )
        &&& self.glev_len == self.decompose_length * self.glwe_common_size.glwe_len_spec()
        &&& self.ggsw_len == (self.glwe_common_size.dimension_spec() + 1) * self.glev_len
    }

    /// The underlying GLWE size constants.
    pub closed spec fn glwe_common_size_spec(self) -> GlweCommonSize {
        self.glwe_common_size
    }

    /// The decomposition length `l`.
    pub closed spec fn decompose_length_spec(self) -> nat {
        self.decompose_length as nat
    }

    /// The GLev length `l (k + 1)N`.
    pub open spec fn glev_len_spec(self) -> nat {
        self.decompose_length_spec() * self.glwe_common_size_spec().glwe_len_spec()
    }

    /// The GGSW length `(k + 1) l (k + 1)N`.
    pub open spec fn ggsw_len_spec(self) -> nat {
        (self.glwe_common_size_spec().dimension_spec() + 1) * self.glev_len_spec()
    }

    /// Creates GLev/GGSW size constants from GLWE sizes and decomposition length.
    pub fn new(glwe_common_size: GlweCommonSize, decompose_length: usize) -> (s: Self)
        requires
            glev_shape_ok(
                glwe_common_size.dimension_spec(),
                glwe_common_size.poly_length_spec(),
                decompose_length as nat,
            ),
        ensures
            s.glwe_common_size_spec() == glwe_common_size,
            s.decompose_length_spec() == decompose_length,
    {
        let dimension = glwe_common_size.dimension();
        let glwe_len = glwe_common_size.glwe_len();
        proof {
            let k = dimension as nat;
            let n = glwe_common_size.poly_length_spec();
            assert(k + 1 <= (k + 1) * n) by (nonlinear_arith)
                requires
                    n >= 2,
            ;
        }
        let component_count = dimension + 1;
        proof {
            let k1 = component_count as nat;
            let l = decompose_length as nat;
            let g = glwe_len as nat;
            assert(l * g <= k1 * (l * g)) by (nonlinear_arith)
                requires
                    k1 >= 1,
            ;
        }
        let glev_len = decompose_length * glwe_len;
        let ggsw_len = component_count * glev_len;
        GlevCommonSize { glwe_common_size, decompose_length, glev_len, ggsw_len }
    }

    /// Returns the underlying GLWE size constants.
    pub fn glwe_common_size(self) -> (r: GlweCommonSize)
        ensures
            r == self.glwe_common_size_spec(),
    {
        self.glwe_common_size
    }

    /// Returns the GLWE dimension `k`.
    pub fn dimension(self) -> (r: usize)
        ensures
            r == self.glwe_common_size_spec().dimension_spec(),
    {
        self.glwe_common_size.dimension()
    }

    /// Returns the polynomial length `N`.
    pub fn poly_length(self) -> (r: usize)
        ensures
            r == self.glwe_common_size_spec().poly_length_spec(),
    {
        self.glwe_common_size.poly_length()
    }

    /// Returns the coefficient/NTT mask length `kN`.
    pub fn glwe_mid(self) -> (r: usize)
        ensures
            r == self.glwe_common_size_spec().glwe_mid_spec(),
    {
        self.glwe_common_size.glwe_mid()
    }

    /// Returns the coefficient/NTT GLWE ciphertext length.
    pub fn glwe_len(self) -> (r: usize)
        ensures
            r == self.glwe_common_size_spec().glwe_len_spec(),
    {
        self.glwe_common_size.glwe_len()
    }

    /// Returns the coefficient-domain secret-key length `kN`.
    pub fn secret_key_len(self) -> (r: usize)
        ensures
            r == self.glwe_common_size_spec().glwe_mid_spec(),
    {
        self.glwe_common_size.secret_key_len()
    }

    /// Returns the Fourier mask length `kN/2`.
    pub fn fourier_glwe_mid(self) -> (r: usize)
        ensures
            r == self.glwe_common_size_spec().glwe_mid_spec() / 2,
    {
        self.glwe_common_size.fourier_glwe_mid()
    }

    /// Returns the Fourier GLWE ciphertext length.
    pub fn fourier_glwe_len(self) -> (r: usize)
        ensures
            r == self.glwe_common_size_spec().glwe_len_spec() / 2,
    {
        self.glwe_common_size.fourier_glwe_len()
    }

    /// Returns the decomposition length.
    pub fn decompose_length(self) -> (r: usize)
        ensures
            r == self.decompose_length_spec(),
            r > 0,
    {
        proof {
            use_type_invariant(&self);
        }
        self.decompose_length
    }

    /// Returns the coefficient/NTT GLev ciphertext length.
    pub fn glev_len(self) -> (r: usize)
        ensures
            r == self.glev_len_spec(),
    {
        proof {
            use_type_invariant(&self);
        }
        self.glev_len
    }

    /// Returns the coefficient/NTT GGSW ciphertext length.
    pub fn ggsw_len(self) -> (r: usize)
        ensures
            r == self.ggsw_len_spec(),
    {
        proof {
            use_type_invariant(&self);
        }
        self.ggsw_len
    }

    /// Returns the Fourier GLev ciphertext length.
    pub fn fourier_glev_len(self) -> (r: usize)
        ensures
            r == self.glev_len_spec() / 2,
    {
        proof {
            use_type_invariant(&self);
        }
        self.glev_len / 2
    }

    /// Returns the Fourier GGSW ciphertext length.
    pub fn fourier_ggsw_len(self) -> (r: usize)
        ensures
            r == self.ggsw_len_spec() / 2,
    {
        proof {
            use_type_invariant(&self);
        }
        self.ggsw_len / 2
    }
}

} // verus!
