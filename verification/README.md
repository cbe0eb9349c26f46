# primus_fhe_core

Verified core of a lattice-based homomorphic encryption library (LWE, GLWE,
TFHE), written in Verus.

- `src/` is the verified library: plaintext encoding and decoding, parameter
  validation and ciphertext size constants, secret-key encoding and CRT-domain
  keys, the TFHE client (key compatibility, encryption from a zero sample,
  decryption), the layout of LWE key-switching keys, modulus switching and the
  schedule of blind rotation, NTT-domain automorphism permutations, and
  `QP`-basis ciphertext layouts. Every public function carries a contract;
  laws relating several functions are public proof functions.
- `app/` holds what the library leaves to its callers: error types that
  implement `std::error::Error`, and random sampling (uniform masks,
  binary / ternary / Gaussian keys and noise) feeding the library's
  encryption and key assembly.
- `tests/` runs the library on concrete values.

## Not in this crate

The crate contains no polynomial arithmetic: no NTT or FFT transforms, no
gadget decomposition, no residue-number-system base conversion and no
big-integer arithmetic. Everything built on them is therefore absent:

- GLWE encryption, decryption and phase computation in the NTT, Fourier and
  DCRT domains, and the conversion of secret keys into those domains;
- GLWE key switching (NTT, Fourier, DCRT, CRT and hybrid RNS) and the
  key-switching step of LWE, which decomposes each coefficient over the gadget;
- the CMUX and monomial products of blind rotation (its schedule is here),
  the generation of bootstrapping keys, automorphism, trace and
  coefficient-expansion keys;
- RNS parameter sets (`CrtGlweParameters`, `CrtGlevParameters`) and the
  derivation of GLWE key-switching parameters from a decomposition basis.

The gadget scalars of a key-switching key are an argument of
`lwe::assemble_lwe_key_switching_key` for the same reason.
