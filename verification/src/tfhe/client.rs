//! Raw external LWE ciphertexts of GLWE-based TFHE: encryption from a fresh
//! zero sample and decryption with the client key.
use crate::ciphertext::LweCiphertext;
use crate::modular::{pow2_u128, reduce_add, signed_residue};
use crate::parameter::tfhe::{PbsOrder, TfheParameters};
use crate::plaintext::accumulate::add_mod_spec;
use crate::plaintext::laws::{add_noise_spec, lemma_decode_tolerates_noise, noise_tolerated};
use crate::plaintext::{decode_spec, embed_spec, PlaintextCodec, PlaintextEmbedding};
use crate::secret_key_type::SecretCoefficient;
use crate::tfhe::key::{ClientKey, TfheKeyError};
use crate::word::{modulus_value, word_modulus, word_modulus_u128, FheUint};
use vstd::arithmetic::div_mod::*;
use vstd::arithmetic::mul::*;
use vstd::arithmetic::power2::*;
use vstd::prelude::*;

verus! {

/// An error produced by the raw TFHE client API.
#[derive(Debug, Clone, PartialEq, Eq, Structural)]
pub enum TfheClientError {
    /// The client key does not match the parameter set.
    IncompatibleKey(TfheKeyError),
    /// The input message cannot be represented by the ciphertext integer type.
    MessageConversion,
    /// The input message is outside the plaintext domain `[0, t)`.
    MessageOutOfRange,
    /// The input message sets the padding half of the plaintext domain.
    MessageOutsidePaddedDomain,
    /// The requested LWE dimension cannot be represented as a ciphertext
    /// coefficient count.
    CiphertextDimensionTooLarge,
    /// An imported LWE ciphertext has the wrong coefficient count.
    CiphertextLengthMismatch {
        /// Required coefficient count, including the body.
        expected: usize,
        /// Actual coefficient count.
        actual: usize,
    },
    /// A ciphertext belongs to a different LWE dimension.
    CiphertextDimensionMismatch {
        /// Required LWE dimension.
        expected: usize,
        /// Actual LWE dimension.
        actual: usize,
    },
    /// The decrypted representative cannot be converted to the requested type.
    PlaintextConversion,
}

/// `sum_i a_i * s_i` over the integers.
pub open spec fn dot_spec<T: FheUint>(a: Seq<T>, s: Seq<SecretCoefficient<T>>) -> int
    decreases a.len(),
{
    if a.len() == 0 {
        0
    } else {
        dot_spec(a.drop_last(), s) + a.last().nat_value() * T::signed_value(s[a.len() - 1])
    }
}

/// The phase `b - <a, s> mod q` of an LWE ciphertext `(a, b)`.
pub open spec fn phase_spec<T: FheUint>(ct: Seq<T>, s: Seq<SecretCoefficient<T>>, q: nat) -> nat {
    let n = (ct.len() - 1) as int;
    ((ct[n].nat_value() - dot_spec(ct.take(n), s)) % (q as int)) as nat
}

/// All coefficients of `ct` are canonical residues modulo `q`.
pub open spec fn canonical<T: FheUint>(ct: Seq<T>, q: nat) -> bool {
    forall|i: int| 0 <= i < ct.len() ==> (#[trigger] ct[i]).nat_value() < q
}

/// Computes `<a, s> mod q` for a mask `a` of canonical residues.
pub fn lwe_dot<T: FheUint>(mask: &[T], secret: &[SecretCoefficient<T>], q: u128) -> (r: u128)
    requires
        mask@.len() <= secret@.len(),
        2 <= q <= 0x1_0000_0000_0000_0000,
        canonical(mask@, q as nat),
    ensures
        r == dot_spec(mask@, secret@) % (q as int),
        r < q,
{
    let n = mask.len();
    let mut acc: u128 = 0;
    let mut i: usize = 0;
    proof {
        lemma_small_mod(0, q as nat);
        assert(mask@.take(0) =~= Seq::<T>::empty());
    }
    while i < n
        invariant
            n == mask@.len(),
            n <= secret@.len(),
            2 <= q <= 0x1_0000_0000_0000_0000,
            canonical(mask@, q as nat),
            i <= n,
            acc < q,
            acc == dot_spec(mask@.take(i as int), secret@) % (q as int),
        decreases n - i,
    {
        let ai = mask[i].to_u128();
        let si = T::signed_to_i128(secret[i]);
        proof {
            T::lemma_word_facts();
            T::lemma_signed_bounds(secret@[i as int]);
            lemma2_to64_rest();
            lemma_pow2_strictly_increases((T::bits_spec() - 1) as nat, 64);
        }
        let ri = signed_residue(si, q);
        proof {
            lemma_mul_upper_bound(ai as int, 0xffff_ffff_ffff_ffff, ri as int, 0xffff_ffff_ffff_ffff);
            lemma_mod_bound((ai * ri) as int, q as int);
        }
        let prod = (ai * ri) % q;
        let next = reduce_add(acc, prod, q);
        proof {
            let d = dot_spec(mask@.take(i as int), secret@);
            let qq = q as int;
            assert(mask@.take(i + 1).drop_last() =~= mask@.take(i as int));
            assert(dot_spec(mask@.take(i + 1), secret@) == d + ai * si);
            // (d mod q + (a * (s mod q)) mod q) mod q == (d + a * s) mod q
            lemma_mul_mod_noop_right(ai as int, si as int, qq);
            lemma_add_mod_noop(d, ai * si, qq);
        }
        acc = next;
        i = i + 1;
    }
    proof {
        assert(mask@.take(n as int) =~= mask@);
    }
    acc
}

/// Computes the phase `b - <a, s> mod q` of an LWE ciphertext `(a, b)`.
pub fn lwe_phase<T: FheUint>(ct: &[T], secret: &[SecretCoefficient<T>], q: u128) -> (r: u128)
    requires
        ct@.len() == secret@.len() + 1,
        2 <= q <= 0x1_0000_0000_0000_0000,
        canonical(ct@, q as nat),
    ensures
        r == phase_spec(ct@, secret@, q as nat),
        r < q,
{
    let n = secret.len();
    let mask = &ct[0..n];
    proof {
        assert(mask@ == ct@.take(n as int));
    }
    let acc = lwe_dot(mask, secret, q);
    let b = ct[n].to_u128();
    proof {
        let d = dot_spec(ct@.take(n as int), secret@);
        let qq = q as int;
        lemma_sub_mod_noop_right(b as int, d, qq);
        lemma_small_mod(b as nat, q as nat);
    }
    if b >= acc {
        proof {
            lemma_small_mod((b - acc) as nat, q as nat);
        }
        b - acc
    } else {
        proof {
            lemma_mod_multiples_vanish(1, (b - acc) as int, q as int);
            lemma_small_mod((b + q - acc) as nat, q as nat);
        }
        b + q - acc
    }
}

/// Builds the LWE encryption of zero `(a, <a, s> + e mod q)` from a mask `a`
/// and a noise residue `e`; its phase is `e`.
pub fn zero_sample_from<T: FheUint>(
    mask: Vec<T>,
    noise: T,
    secret: &[SecretCoefficient<T>],
    q: u128,
) -> (r: LweCiphertext<T>)
    requires
        mask@.len() == secret@.len(),
        2 <= q <= word_modulus::<T>(),
        canonical(mask@, q as nat),
        noise.nat_value() < q,
    ensures
        r.0@.len() == mask@.len() + 1,
        r.0@.take(mask@.len() as int) == mask@,
        canonical(r.0@, q as nat),
        phase_spec(r.0@, secret@, q as nat) == noise.nat_value(),
{
    proof {
        T::lemma_word_facts();
    }
    let dot = lwe_dot(mask.as_slice(), secret, q);
    let b = reduce_add(dot, noise.to_u128(), q);
    let ghost d = dot_spec(mask@, secret@);
    let mut ct = mask;
    ct.push(T::from_u128(b));
    proof {
        let n = secret@.len() as int;
        let qq = q as int;
        let e = noise.nat_value() as int;
        assert(ct@.take(n) =~= mask@);
        // b - d == ((d mod q) + e) mod q - d == e (mod q)
        lemma_add_mod_noop(d, e, qq);
        lemma_small_mod(noise.nat_value(), q as nat);
        lemma_sub_mod_noop(d + e, d, qq);
        lemma_sub_mod_noop(b as int, d, qq);
        lemma_mod_twice(d + e, qq);
        assert((d + e - d) == e);
        assert forall|i: int| 0 <= i < ct@.len() implies (#[trigger] ct@[i]).nat_value() < q by {
            if i < n {
                assert(ct@[i] == mask@[i]);
            }
        }
    }
    LweCiphertext(ct)
}

/// Converts a message held in a wider integer into the coefficient word, as
/// `TryInto` does: a value that does not fit is a conversion error.
pub fn message_to_word<T: FheUint>(message: u128) -> (r: Result<T, TfheClientError>)
    ensures
        message < word_modulus::<T>() ==> (r matches Ok(m) && m.nat_value() == message),
        message >= word_modulus::<T>() ==> r == Err::<T, TfheClientError>(
            TfheClientError::MessageConversion,
        ),
{
    let w = word_modulus_u128::<T>();
    if message < w {
        Ok(T::from_u128(message))
    } else {
        Err(TfheClientError::MessageConversion)
    }
}

/// Converts a decrypted plaintext into an unsigned integer of `bits` bits,
/// as `TryFrom` does: a plaintext that does not fit is a conversion error.
pub fn plaintext_to_width<T: FheUint>(plaintext: T, bits: u32) -> (r: Result<u128, TfheClientError>)
    requires
        bits < 128,
    ensures
        plaintext.nat_value() < pow2(bits as nat) ==> r == Ok::<u128, TfheClientError>(
            plaintext.nat_value() as u128,
        ),
        plaintext.nat_value() >= pow2(bits as nat) ==> r == Err::<u128, TfheClientError>(
            TfheClientError::PlaintextConversion,
        ),
{
    let bound = pow2_u128(bits);
    let v = plaintext.to_u128();
    if v < bound {
        Ok(v)
    } else {
        Err(TfheClientError::PlaintextConversion)
    }
}

/// A raw external LWE ciphertext used by GLWE-based TFHE.
#[derive(Debug, Clone, PartialEq, Eq)]
pub struct Ciphertext<T: FheUint>(LweCiphertext<T>);

impl<T: FheUint> Ciphertext<T> {
    pub closed spec fn lwe_spec(&self) -> LweCiphertext<T> {
        self.0
    }

    /// Creates a ciphertext from an LWE sample after checking its dimension.
    pub fn try_from_lwe(ciphertext: LweCiphertext<T>, expected_dimension: usize) -> (r: Result<Self, TfheClientError>)
        ensures
            expected_dimension == usize::MAX ==> r == Err::<Self, TfheClientError>(
                TfheClientError::CiphertextDimensionTooLarge,
            ),
            expected_dimension < usize::MAX && ciphertext.0@.len() != expected_dimension + 1 ==> r
                == Err::<Self, TfheClientError>(
                TfheClientError::CiphertextLengthMismatch {
                    expected: (expected_dimension + 1) as usize,
                    actual: ciphertext.0@.len() as usize,
                },
            ),
            expected_dimension < usize::MAX && ciphertext.0@.len() == expected_dimension + 1 ==> (r
                matches Ok(c) && c.lwe_spec() == ciphertext),
    {
        let expected = match expected_dimension.checked_add(1) {
            Some(expected) => expected,
            None => {
                return Err(TfheClientError::CiphertextDimensionTooLarge);
            },
        };
        let actual = ciphertext.0.len();
        if actual != expected {
            return Err(TfheClientError::CiphertextLengthMismatch { expected, actual });
        }
        Ok(Ciphertext(ciphertext))
    }

    /// Returns the underlying LWE ciphertext.
    pub fn as_lwe(&self) -> (r: &LweCiphertext<T>)
        ensures
            *r == self.lwe_spec(),
    {
        &self.0
    }

    /// Returns the underlying LWE ciphertext for modification.
    pub fn as_lwe_mut(&mut self) -> (r: &mut LweCiphertext<T>)
        ensures
            *r == old(self).lwe_spec(),
            final(self).lwe_spec() == *final(r),
    {
        &mut self.0
    }

    /// Decomposes this wrapper into its underlying LWE ciphertext.
    pub fn into_lwe(self) -> (r: LweCiphertext<T>)
        ensures
            r == self.lwe_spec(),
    {
        self.0
    }

    /// Returns the LWE dimension of this ciphertext.
    pub fn dimension(&self) -> (r: usize)
        requires
            self.lwe_spec().0@.len() > 0,
        ensures
            r == self.lwe_spec().0@.len() - 1,
    {
        self.0.dimension()
    }
}

/// The ciphertext modulus of external LWE ciphertexts under `parameters`.
pub open spec fn client_modulus<T: FheUint>(parameters: TfheParameters<T>) -> Option<T> {
    match parameters.pbs_order_spec() {
        PbsOrder::BootstrapKeyswitch => parameters.small_lwe_spec().cipher_modulus_spec(),
        PbsOrder::KeyswitchBootstrap => parameters.glwe_spec().inner_spec().cipher_modulus_spec(),
    }
}

/// The plaintext codec of external LWE ciphertexts under `parameters`.
pub open spec fn client_codec<T: FheUint>(parameters: TfheParameters<T>) -> PlaintextCodec<T> {
    match parameters.pbs_order_spec() {
        PbsOrder::BootstrapKeyswitch => parameters.small_lwe_spec().plaintext_codec_spec(),
        PbsOrder::KeyswitchBootstrap => parameters.glwe_spec().plaintext_codec_spec(),
    }
}

/// What decryption returns for the coefficients `ct` under `parameters` and
/// the external LWE key `secret`.
pub open spec fn decrypt_spec<T: FheUint>(
    parameters: TfheParameters<T>,
    secret: Seq<SecretCoefficient<T>>,
    ct: Seq<T>,
) -> nat {
    let codec = client_codec(parameters);
    decode_spec(codec.t_spec(), codec.modulus_spec(), phase_spec(ct, secret, codec.modulus_spec()))
}

/// Returns the external LWE modulus and codec selected by the PBS order.
fn client_modulus_and_codec<'a, T: FheUint>(parameters: &'a TfheParameters<T>) -> (r: (u128, &'a PlaintextCodec<T>))
    ensures
        r.0 == modulus_value(client_modulus(*parameters)),
        *r.1 == client_codec(*parameters),
        r.1.modulus_spec() == r.0,
        2 <= r.1.t_spec() < r.0 <= 0x1_0000_0000_0000_0000,
        r.0 <= word_modulus::<T>(),
{
    let codec = match parameters.pbs_order() {
        PbsOrder::BootstrapKeyswitch => parameters.small_lwe().plaintext_codec(),
        PbsOrder::KeyswitchBootstrap => parameters.glwe().plaintext_codec(),
    };
    let _ = codec.t();
    (codec.modulus_u128(), codec)
}

/// Encrypts raw TFHE messages with the client key.
pub struct Encryptor<'a, T: FheUint> {
    parameters: &'a TfheParameters<T>,
    key: &'a ClientKey<T>,
}

impl<'a, T: FheUint> Encryptor<'a, T> {
    #[verifier::type_invariant]
    closed spec fn inv(self) -> bool {
        self.key.compatibility_error(self.parameters) is None
    }

    pub closed spec fn parameters_spec(&self) -> TfheParameters<T> {
        *self.parameters
    }

    pub closed spec fn key_spec(&self) -> ClientKey<T> {
        *self.key
    }

    /// Creates a secret-key encryptor after checking key compatibility.
    pub fn with_client_key(parameters: &'a TfheParameters<T>, key: &'a ClientKey<T>) -> (r: Result<Self, TfheClientError>)
        ensures
            match key.compatibility_error(parameters) {
                Some(e) => r == Err::<Self, TfheClientError>(TfheClientError::IncompatibleKey(e)),
                None => r matches Ok(enc) && enc.parameters_spec() == *parameters && enc.key_spec()
                    == *key,
            },
            r is Ok ==> key.lwe_secret_key_spec().len() == parameters.ciphertext_lwe_dimension_spec(),
    {
        match key.check_compatible(parameters) {
            Err(e) => Err(TfheClientError::IncompatibleKey(e)),
            Ok(()) => Ok(Encryptor { parameters, key }),
        }
    }

    /// Returns the parameter set this encryptor was created for.
    pub fn parameters(&self) -> (r: &'a TfheParameters<T>)
        ensures
            *r == self.parameters_spec(),
    {
        self.parameters
    }

    /// Returns the ciphertext modulus `q` of the ciphertexts this encryptor
    /// makes (`2^BITS` for the native modulus).
    pub fn client_modulus(&self) -> (r: u128)
        ensures
            r == modulus_value(client_modulus(self.parameters_spec())),
            2 < r <= word_modulus::<T>(),
    {
        let (q, _) = client_modulus_and_codec(self.parameters);
        q
    }

    /// Returns the standard deviation (IEEE-754 bit pattern) of the noise of
    /// the ciphertexts this encryptor makes: that of the small LWE
    /// parameters, or of the GLWE parameters when key switching comes first.
    pub fn noise_standard_deviation(&self) -> (r: u64)
        ensures
            r == match self.parameters_spec().pbs_order_spec() {
                PbsOrder::BootstrapKeyswitch => self.parameters_spec().small_lwe_spec().noise_standard_deviation_spec(),
                PbsOrder::KeyswitchBootstrap => self.parameters_spec().glwe_spec().inner_spec().noise_standard_deviation_spec(),
            },
    {
        match self.parameters.pbs_order() {
            PbsOrder::BootstrapKeyswitch => self.parameters.small_lwe().noise_standard_deviation(),
            PbsOrder::KeyswitchBootstrap => self.parameters.glwe().noise_standard_deviation(),
        }
    }

    /// Builds the encryption of zero `(a, <a, s> + e mod q)` under the
    /// external LWE key, from a uniform mask `a` and a noise residue `e`.
    pub fn zero_sample(&self, mask: Vec<T>, noise: T) -> (r: LweCiphertext<T>)
        requires
            mask@.len() == self.parameters_spec().ciphertext_lwe_dimension_spec(),
            canonical(mask@, modulus_value(client_modulus(self.parameters_spec()))),
            noise.nat_value() < modulus_value(client_modulus(self.parameters_spec())),
        ensures
            r.0@.len() == mask@.len() + 1,
            r.0@.take(mask@.len() as int) == mask@,
            canonical(r.0@, modulus_value(client_modulus(self.parameters_spec()))),
            phase_spec(
                r.0@,
                self.key_spec().lwe_secret_key_spec(),
                modulus_value(client_modulus(self.parameters_spec())),
            ) == noise.nat_value(),
    {
        proof {
            use_type_invariant(self);
        }
        let (q, _) = client_modulus_and_codec(self.parameters);
        let secret = match self.key.pbs_order() {
            PbsOrder::BootstrapKeyswitch => self.key.small_lwe_secret_key().as_slice(),
            PbsOrder::KeyswitchBootstrap => self.key.glwe_secret_key().as_slice(),
        };
        zero_sample_from(mask, noise, secret, q)
    }

    /// Checks that `message` lies in the plaintext domain `[0, t)`.
    fn checked_message(&self, message: T) -> (r: Result<T, TfheClientError>)
        ensures
            message.nat_value() >= client_codec(self.parameters_spec()).t_spec() ==> r == Err::<
                T,
                TfheClientError,
            >(TfheClientError::MessageOutOfRange),
            message.nat_value() < client_codec(self.parameters_spec()).t_spec() ==> r == Ok::<
                T,
                TfheClientError,
            >(message),
    {
        let (_, codec) = client_modulus_and_codec(self.parameters);
        let t = self.parameters.plain_modulus_value();
        if message.to_u128() >= t.to_u128() {
            return Err(TfheClientError::MessageOutOfRange);
        }
        Ok(message)
    }

    /// Adds the encoding of `message` onto the body of `zero_sample`.
    fn encrypt_with_embedding(&self, message: T, embedding: PlaintextEmbedding, zero_sample: LweCiphertext<T>) -> (r: LweCiphertext<T>)
        requires
            message.nat_value() < client_codec(self.parameters_spec()).t_spec(),
            zero_sample.0@.len() == self.parameters_spec().ciphertext_lwe_dimension_spec() + 1,
            canonical(zero_sample.0@, modulus_value(client_modulus(self.parameters_spec()))),
        ensures
            encryption_of(r, zero_sample, client_codec(self.parameters_spec()), message.nat_value(), embedding),
    {
        let (_, codec) = client_modulus_and_codec(self.parameters);
        let mut ciphertext = zero_sample;
        let n = ciphertext.0.len() - 1;
        let mut body = ciphertext.0[n];
        proof {
            assert(zero_sample.0@[n as int].nat_value() < codec.modulus_spec());
        }
        codec.add_encode_value(&mut body, message, embedding);
        ciphertext.0.set(n, body);
        proof {
            assert(ciphertext.0@.take(n as int) =~= zero_sample.0@.take(n as int));
        }
        ciphertext
    }

    /// Encrypts an unsigned message in the range `[0, t)` onto a fresh
    /// encryption of zero `zero_sample` under the external LWE key.
    pub fn encrypt(&self, message: T, zero_sample: LweCiphertext<T>) -> (r: Result<Ciphertext<T>, TfheClientError>)
        requires
            zero_sample.0@.len() == self.parameters_spec().ciphertext_lwe_dimension_spec() + 1,
            canonical(zero_sample.0@, modulus_value(client_modulus(self.parameters_spec()))),
        ensures
            message.nat_value() >= client_codec(self.parameters_spec()).t_spec() ==> r == Err::<
                Ciphertext<T>,
                TfheClientError,
            >(TfheClientError::MessageOutOfRange),
            message.nat_value() < client_codec(self.parameters_spec()).t_spec() ==> (r matches Ok(c)
                && encryption_of(
                c.lwe_spec(),
                zero_sample,
                client_codec(self.parameters_spec()),
                message.nat_value(),
                PlaintextEmbedding::Unsigned,
            )),
    {
        let message = self.checked_message(message)?;
        Ok(Ciphertext(self.encrypt_with_embedding(message, PlaintextEmbedding::Unsigned, zero_sample)))
    }

    /// Encrypts a message in the padded domain `[0, floor(t / 2))`.
    pub fn encrypt_padded(&self, message: T, zero_sample: LweCiphertext<T>) -> (r: Result<Ciphertext<T>, TfheClientError>)
        requires
            zero_sample.0@.len() == self.parameters_spec().ciphertext_lwe_dimension_spec() + 1,
            canonical(zero_sample.0@, modulus_value(client_modulus(self.parameters_spec()))),
        ensures
            message.nat_value() >= client_codec(self.parameters_spec()).t_spec() ==> r == Err::<
                Ciphertext<T>,
                TfheClientError,
            >(TfheClientError::MessageOutOfRange),
            client_codec(self.parameters_spec()).t_spec() / 2 <= message.nat_value() < client_codec(
                self.parameters_spec(),
            ).t_spec() ==> r == Err::<Ciphertext<T>, TfheClientError>(
                TfheClientError::MessageOutsidePaddedDomain,
            ),
            message.nat_value() < client_codec(self.parameters_spec()).t_spec() / 2 ==> (r matches Ok(c)
                && encryption_of(
                c.lwe_spec(),
                zero_sample,
                client_codec(self.parameters_spec()),
                message.nat_value(),
                PlaintextEmbedding::Unsigned,
            )),
    {
        let message = self.checked_message(message)?;
        let modulus = self.parameters.plain_modulus_value();
        let front_domain_len = modulus.to_u128() / 2;
        if message.to_u128() >= front_domain_len {
            return Err(TfheClientError::MessageOutsidePaddedDomain);
        }
        Ok(Ciphertext(self.encrypt_with_embedding(message, PlaintextEmbedding::Unsigned, zero_sample)))
    }

    /// Encrypts a centered modular message in the range `[0, t)`: values in
    /// the upper half of the plaintext domain represent negative values.
    pub fn encrypt_centered(&self, message: T, zero_sample: LweCiphertext<T>) -> (r: Result<Ciphertext<T>, TfheClientError>)
        requires
            zero_sample.0@.len() == self.parameters_spec().ciphertext_lwe_dimension_spec() + 1,
            canonical(zero_sample.0@, modulus_value(client_modulus(self.parameters_spec()))),
        ensures
            message.nat_value() >= client_codec(self.parameters_spec()).t_spec() ==> r == Err::<
                Ciphertext<T>,
                TfheClientError,
            >(TfheClientError::MessageOutOfRange),
            message.nat_value() < client_codec(self.parameters_spec()).t_spec() ==> (r matches Ok(c)
                && encryption_of(
                c.lwe_spec(),
                zero_sample,
                client_codec(self.parameters_spec()),
                message.nat_value(),
                PlaintextEmbedding::Centered,
            )),
    {
        let message = self.checked_message(message)?;
        Ok(Ciphertext(self.encrypt_with_embedding(message, PlaintextEmbedding::Centered, zero_sample)))
    }
}

/// `ct` is `zero_sample` with the encoding of `m` added onto its body.
pub open spec fn encryption_of<T: FheUint>(
    ct: LweCiphertext<T>,
    zero_sample: LweCiphertext<T>,
    codec: PlaintextCodec<T>,
    m: nat,
    embedding: PlaintextEmbedding,
) -> bool {
    let n = zero_sample.0@.len() - 1;
    &&& ct.0@.len() == zero_sample.0@.len()
    &&& ct.0@.take(n) == zero_sample.0@.take(n)
    &&& ct.0@[n].nat_value() == add_mod_spec(
        zero_sample.0@[n].nat_value(),
        embed_spec(codec.t_spec(), codec.modulus_spec(), m, embedding, false),
        codec.modulus_spec(),
    )
}

/// Decrypts raw TFHE ciphertexts with the client key.
pub struct Decryptor<'a, T: FheUint> {
    parameters: &'a TfheParameters<T>,
    key: &'a ClientKey<T>,
}

impl<'a, T: FheUint> Decryptor<'a, T> {
    #[verifier::type_invariant]
    closed spec fn inv(self) -> bool {
        self.key.compatibility_error(self.parameters) is None
    }

    pub closed spec fn parameters_spec(&self) -> TfheParameters<T> {
        *self.parameters
    }

    pub closed spec fn key_spec(&self) -> ClientKey<T> {
        *self.key
    }

    /// Creates a decryptor after checking key compatibility.
    pub fn new(parameters: &'a TfheParameters<T>, key: &'a ClientKey<T>) -> (r: Result<Self, TfheClientError>)
        ensures
            match key.compatibility_error(parameters) {
                Some(e) => r == Err::<Self, TfheClientError>(TfheClientError::IncompatibleKey(e)),
                None => r matches Ok(dec) && dec.parameters_spec() == *parameters && dec.key_spec()
                    == *key,
            },
            r is Ok ==> key.lwe_secret_key_spec().len() == parameters.ciphertext_lwe_dimension_spec(),
    {
        match key.check_compatible(parameters) {
            Err(e) => Err(TfheClientError::IncompatibleKey(e)),
            Ok(()) => Ok(Decryptor { parameters, key }),
        }
    }

    /// Decrypts to the canonical representative in `[0, t)`:
    /// `decode(b - <a, s> mod q)`.
    pub fn decrypt(&self, ciphertext: &Ciphertext<T>) -> (r: Result<T, TfheClientError>)
        requires
            ciphertext.lwe_spec().0@.len() > 0,
            ciphertext.lwe_spec().0@.len() - 1 == self.parameters_spec().ciphertext_lwe_dimension_spec()
                ==> canonical(
                ciphertext.lwe_spec().0@,
                modulus_value(client_modulus(self.parameters_spec())),
            ),
        ensures
            ciphertext.lwe_spec().0@.len() - 1 != self.parameters_spec().ciphertext_lwe_dimension_spec()
                ==> r == Err::<T, TfheClientError>(
                TfheClientError::CiphertextDimensionMismatch {
                    expected: self.parameters_spec().ciphertext_lwe_dimension_spec() as usize,
                    actual: (ciphertext.lwe_spec().0@.len() - 1) as usize,
                },
            ),
            ciphertext.lwe_spec().0@.len() - 1 == self.parameters_spec().ciphertext_lwe_dimension_spec()
                ==> (r matches Ok(m) && m.nat_value() == decrypt_spec(
                self.parameters_spec(),
                self.key_spec().lwe_secret_key_spec(),
                ciphertext.lwe_spec().0@,
            )),
    {
        proof {
            use_type_invariant(self);
        }
        let expected = self.parameters.ciphertext_lwe_dimension();
        let actual = ciphertext.dimension();
        if actual != expected {
            return Err(TfheClientError::CiphertextDimensionMismatch { expected, actual });
        }
        let (q, codec) = client_modulus_and_codec(self.parameters);
        let secret = match self.key.pbs_order() {
            PbsOrder::BootstrapKeyswitch => self.key.small_lwe_secret_key().as_slice(),
            PbsOrder::KeyswitchBootstrap => self.key.glwe_secret_key().as_slice(),
        };
        let phase = lwe_phase(ciphertext.as_lwe().as_slice(), secret, q);
        proof {
            T::lemma_word_facts();
        }
        let message = codec.decode_value(T::from_u128(phase));
        Ok(message)
    }
}

/// Decryption inverts encryption: a ciphertext made by adding the encoding
/// of `m < t` onto a zero sample whose phase is a tolerated noise `e`
/// (`2 t (|e| + 1) <= q`) decrypts to `m`, under either embedding.
pub proof fn lemma_decrypt_encryption<T: FheUint>(
    codec: PlaintextCodec<T>,
    secret: Seq<SecretCoefficient<T>>,
    zero_sample: LweCiphertext<T>,
    ct: LweCiphertext<T>,
    m: nat,
    embedding: PlaintextEmbedding,
    noise: int,
)
    requires
        2 <= codec.t_spec() < codec.modulus_spec(),
        m < codec.t_spec(),
        zero_sample.0@.len() == secret.len() + 1,
        canonical(zero_sample.0@, codec.modulus_spec()),
        phase_spec(zero_sample.0@, secret, codec.modulus_spec()) == add_noise_spec(0, noise, codec.modulus_spec()),
        noise_tolerated(codec.t_spec(), codec.modulus_spec(), noise),
        encryption_of(ct, zero_sample, codec, m, embedding),
    ensures
        decode_spec(codec.t_spec(), codec.modulus_spec(), phase_spec(ct.0@, secret, codec.modulus_spec()))
            == m,
{
    let q = codec.modulus_spec();
    let qq = q as int;
    let n = secret.len() as int;
    let e = embed_spec(codec.t_spec(), q, m, embedding, false);
    let d = dot_spec(zero_sample.0@.take(n), secret);
    let b0 = zero_sample.0@[n].nat_value() as int;
    let b1 = ct.0@[n].nat_value() as int;
    assert(ct.0@.take(n) == zero_sample.0@.take(n));
    // phase(ct) = (b0 + e - d) mod q
    assert(b1 == (b0 + e) % qq);
    lemma_sub_mod_noop(b0 + e, d, qq);
    lemma_sub_mod_noop(b1, d, qq);
    lemma_mod_twice(b0 + e, qq);
    assert(phase_spec(ct.0@, secret, q) == ((b0 + e - d) % qq) as nat);
    // (b0 - d) mod q == noise mod q
    assert(((b0 - d) % qq) == (noise % qq)) by {
        lemma_small_mod(0, q);
    }
    lemma_add_mod_noop(b0 - d, e as int, qq);
    lemma_add_mod_noop(noise, e as int, qq);
    assert((b0 + e - d) % qq == (e + noise) % qq);
    lemma_decode_tolerates_noise(codec, m, embedding, noise);
}

/// Law of the client: a ciphertext made by `Encryptor::encrypt*` of `m < t`
/// from a zero sample under the client key, whose phase is a tolerated
/// noise, has the client dimension and decrypts (`Decryptor::decrypt`) to
/// `m`, under either embedding and either PBS order.
pub proof fn lemma_client_round_trip<T: FheUint>(
    parameters: TfheParameters<T>,
    key: ClientKey<T>,
    zero_sample: LweCiphertext<T>,
    ct: LweCiphertext<T>,
    m: nat,
    embedding: PlaintextEmbedding,
    noise: int,
)
    requires
        2 <= client_codec(parameters).t_spec() < client_codec(parameters).modulus_spec(),
        key.lwe_secret_key_spec().len() == parameters.ciphertext_lwe_dimension_spec(),
        zero_sample.0@.len() == parameters.ciphertext_lwe_dimension_spec() + 1,
        canonical(zero_sample.0@, client_codec(parameters).modulus_spec()),
        phase_spec(zero_sample.0@, key.lwe_secret_key_spec(), client_codec(parameters).modulus_spec())
            == add_noise_spec(0, noise, client_codec(parameters).modulus_spec()),
        noise_tolerated(client_codec(parameters).t_spec(), client_codec(parameters).modulus_spec(), noise),
        m < client_codec(parameters).t_spec(),
        encryption_of(ct, zero_sample, client_codec(parameters), m, embedding),
    ensures
        ct.0@.len() - 1 == parameters.ciphertext_lwe_dimension_spec(),
        decrypt_spec(parameters, key.lwe_secret_key_spec(), ct.0@) == m,
{
    lemma_decrypt_encryption(
        client_codec(parameters),
        key.lwe_secret_key_spec(),
        zero_sample,
        ct,
        m,
        embedding,
        noise,
    );
}

} // verus!
