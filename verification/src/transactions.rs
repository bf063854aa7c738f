//! Transaction assembly and the four transfer payload builders.
//!
//! A transaction body is `from ‖ nonce ‖ energy ‖ payload_size ‖ expiry ‖
//! payload`, all fields fixed width, hashed once with the digest; the field
//! order and widths are load bearing and must match the chain byte for
//! byte.  The payload's first byte is its type tag: `3` for a plain
//! transfer, `16` for a shielded transfer, `17` for shielding, `18` for
//! unshielding.

use vstd::prelude::*;
use crate::GlobalContext;
use crate::WalletError;
use crate::account::AccountAddress;
use crate::account::TransactionSignature;
use crate::account::AccountKeys;
use crate::account::make_signatures;
use crate::account::signatures_match;
use crate::bsgs::BabyStepGiantStep;
use crate::bsgs::step_key;
use crate::codec::ser_u32;
use crate::codec::ser_u64;
use crate::codec::put_u8;
use crate::codec::put_u32;
use crate::codec::put_u64;
use crate::codec::put_bytes;
use crate::elgamal::Cipher;
use crate::elgamal::PublicKey;
use crate::elgamal::SecretKey;
use crate::elgamal::aggregate;
use crate::elgamal::encrypt_amount_with_fixed_randomness;
use crate::elgamal::encrypts_under;
use crate::elgamal::encrypts_under_own_key;
use crate::elgamal::ser_cipher;
use crate::elgamal::put_cipher;
use crate::elgamal::spec_decrypt;
use crate::external::hex_of;
use crate::external::sha256;
use crate::external::sha256_of;
use crate::external::to_hex;
use crate::external::random_u64;
use crate::group::g_add;
use crate::group::GroupElement;

verus! {

/// The tag byte of a plain transfer.
pub const TAG_TRANSFER: u8 = 3;

/// The tag byte of a shielded-to-shielded transfer.
pub const TAG_ENCRYPTED_TRANSFER: u8 = 16;

/// The tag byte of a public-to-shielded move.
pub const TAG_PUB_TO_SEC: u8 = 17;

/// The tag byte of a shielded-to-public move.
pub const TAG_SEC_TO_PUB: u8 = 18;

/// The context every transaction is assembled in.
#[derive(Clone, PartialEq, Eq, Debug)]
pub struct TransferContext {
    pub from: AccountAddress,
    pub to: Option<AccountAddress>,
    pub expiry: u64,
    pub nonce: u64,
    pub keys: AccountKeys,
    pub energy: u64,
}

impl TransferContext {
    /// The sender address, recipient address (where present) and key
    /// family are all well formed.
    pub open spec fn wf(self) -> bool {
        &&& self.from.wf()
        &&& self.keys.wf()
        &&& (self.to matches Some(a) ==> a.wf())
    }
}

/// The canonical transaction body around a payload.
pub open spec fn spec_transaction_body(
    from: Seq<u8>,
    nonce: u64,
    energy: u64,
    expiry: u64,
    payload: Seq<u8>,
) -> Seq<u8> {
    from + ser_u64(nonce) + ser_u64(energy) + ser_u32(payload.len() as u32) + ser_u64(expiry)
        + payload
}

/// Given payload bytes, make the full transaction body together with its
/// hash.
pub fn make_transaction_bytes(ctx: &TransferContext, payload: &Vec<u8>) -> (r: (Vec<u8>, Vec<u8>))
    requires
        ctx.from.wf(),
        payload@.len() <= u32::MAX,
    ensures
        r.1@ == spec_transaction_body(
            ctx.from.bytes@,
            ctx.nonce,
            ctx.energy,
            ctx.expiry,
            payload@,
        ),
        r.0@ == sha256_of(r.1@),
        r.0@.len() == 32,
{
    let payload_size: u32 = payload.len() as u32;
    let mut body: Vec<u8> = Vec::new();
    put_bytes(&mut body, &ctx.from.bytes);
    put_u64(&mut body, ctx.nonce);
    put_u64(&mut body, ctx.energy);
    put_u32(&mut body, payload_size);
    put_u64(&mut body, ctx.expiry);
    put_bytes(&mut body, payload);
    proof {
        assert(body@ =~= spec_transaction_body(
            ctx.from.bytes@,
            ctx.nonce,
            ctx.energy,
            ctx.expiry,
            payload@,
        ));
    }
    let hash = sha256(&body);
    (hash, body)
}

/// A signed transaction: the signatures, the hash they sign, and the body
/// bytes that go on the wire.
#[derive(Clone, PartialEq, Eq, Debug)]
pub struct TransferOutput {
    pub signatures: TransactionSignature,
    pub hash: Vec<u8>,
    pub body: Vec<u8>,
}

impl TransferOutput {
    /// The body in its textual form.
    pub fn transaction_hex(&self) -> (r: String)
        ensures
            r@ == hex_of(self.body@),
    {
        to_hex(&self.body)
    }
}

/// Whether `out` is a correctly assembled and fully signed transaction for
/// `payload` in `ctx`.
pub open spec fn is_signed_transaction(
    ctx: TransferContext,
    payload: Seq<u8>,
    out: TransferOutput,
) -> bool {
    &&& out.body@ == spec_transaction_body(ctx.from.bytes@, ctx.nonce, ctx.energy, ctx.expiry, payload)
    &&& out.hash@ == sha256_of(out.body@)
    &&& signatures_match(ctx.keys, out.hash@, out.signatures)
}

/// The payload of a plain transfer: tag, recipient, amount.
pub open spec fn spec_plain_transfer_payload(to: AccountAddress, amount: u64) -> Seq<u8> {
    seq![TAG_TRANSFER] + to.bytes@ + ser_u64(amount)
}

/// A plain-transfer payload is exactly 41 bytes before the header is
/// prepended.
pub proof fn lemma_plain_transfer_payload_len(to: AccountAddress, amount: u64)
    requires
        to.wf(),
    ensures
        spec_plain_transfer_payload(to, amount).len() == 41,
{
}

/// Build and sign a plain transfer.  Fails exactly when the context names
/// no recipient.
pub fn create_transfer(ctx: &TransferContext, amount: u64) -> (r: Result<
    TransferOutput,
    WalletError,
>)
    requires
        ctx.wf(),
    ensures
        ctx.to is None <==> r == Err::<TransferOutput, WalletError>(WalletError::MissingRecipient),
        ctx.to is Some ==> r is Ok,
        r matches Ok(out) ==> (ctx.to matches Some(to) ==> {
            &&& spec_plain_transfer_payload(to, amount).len() == 41
            &&& is_signed_transaction(*ctx, spec_plain_transfer_payload(to, amount), out)
        }),
{
    let to = match &ctx.to {
        Some(t) => t,
        None => {
            return Err(WalletError::MissingRecipient);
        },
    };
    let mut payload: Vec<u8> = Vec::new();
    put_u8(&mut payload, TAG_TRANSFER);
    put_bytes(&mut payload, &to.bytes);
    put_u64(&mut payload, amount);
    proof {
        assert(payload@ =~= spec_plain_transfer_payload(*to, amount));
    }
    let (hash, body) = make_transaction_bytes(ctx, &payload);
    let signatures = make_signatures(&ctx.keys, &hash);
    Ok(TransferOutput { signatures, hash, body })
}

/// The payload of a public-to-shielded move: tag and amount.
pub open spec fn spec_pub_to_sec_payload(amount: u64) -> Seq<u8> {
    seq![TAG_PUB_TO_SEC] + ser_u64(amount)
}

/// A shielding transaction: the signed transaction plus the sender's own
/// deterministic encryption of the shielded amount.
#[derive(Clone, PartialEq, Eq, Debug)]
pub struct ShieldOutput {
    pub output: TransferOutput,
    pub added_self_encrypted_amount: Cipher,
}

/// Build and sign a public-to-shielded move.  The amount is additionally
/// self-encrypted with fixed randomness so the sender can audit the
/// ciphertext without recording ephemeral randomness.
pub fn create_pub_to_sec_transfer(ctx: &TransferContext, global: &GlobalContext, amount: u64) -> (r:
    ShieldOutput)
    requires
        ctx.wf(),
    ensures
        is_signed_transaction(*ctx, spec_pub_to_sec_payload(amount), r.output),
        r.added_self_encrypted_amount.c0.v == 0,
        r.added_self_encrypted_amount.c1.v == crate::group::g_scale(
            amount as int,
            global.generator.v as int,
        ),
{
    let mut payload: Vec<u8> = Vec::new();
    put_u8(&mut payload, TAG_PUB_TO_SEC);
    put_u64(&mut payload, amount);
    proof {
        assert(payload@ =~= spec_pub_to_sec_payload(amount));
    }
    let (hash, body) = make_transaction_bytes(ctx, &payload);
    let signatures = make_signatures(&ctx.keys, &hash);
    let encryption = encrypt_amount_with_fixed_randomness(&global.generator, amount);
    ShieldOutput {
        output: TransferOutput { signatures, hash, body },
        added_self_encrypted_amount: encryption,
    }
}

/// The ciphertext and proof bundle of a shielded-to-shielded transfer.
#[derive(Clone, PartialEq, Eq, Debug)]
pub struct EncryptedAmountTransferData {
    /// The sender's balance after the transfer, under the sender's key.
    pub remaining_amount: Cipher,
    /// The transferred amount, under the recipient's key.
    pub transfer_amount: Cipher,
    /// The binding transcript produced by the proof layer.
    pub proof: Vec<u8>,
}

/// The statement a shielded-transfer transcript binds.
pub open spec fn spec_transfer_statement(d: EncryptedAmountTransferData) -> Seq<u8> {
    ser_cipher(d.remaining_amount) + ser_cipher(d.transfer_amount)
}

/// The canonical bytes of a shielded-transfer bundle.
pub open spec fn ser_transfer_data(d: EncryptedAmountTransferData) -> Seq<u8> {
    ser_cipher(d.remaining_amount) + ser_cipher(d.transfer_amount) + ser_u32(
        d.proof@.len() as u32,
    ) + d.proof@
}

/// The canonical bytes of a shielded-transfer bundle as an owned buffer.
pub fn serialize_transfer_data(d: &EncryptedAmountTransferData) -> (r: Vec<u8>)
    requires
        d.proof@.len() <= u32::MAX,
    ensures
        r@ == ser_transfer_data(*d),
{
    let mut out: Vec<u8> = Vec::new();
    put_cipher(&mut out, &d.remaining_amount);
    put_cipher(&mut out, &d.transfer_amount);
    put_u32(&mut out, d.proof.len() as u32);
    put_bytes(&mut out, &d.proof);
    proof {
        assert(out@ =~= ser_transfer_data(*d));
    }
    out
}

/// Read back a shielded-transfer bundle from its canonical bytes at `pos`.
pub fn read_transfer_data(b: &Vec<u8>, pos: usize) -> (r: Option<
    (EncryptedAmountTransferData, usize),
>)
    ensures
        r matches Some(p) ==> {
            &&& pos + 36 <= b@.len()
            &&& p.0.remaining_amount.c0.v == crate::codec::parse_u64(
                b@.subrange(pos as int, pos + 8),
            )
            &&& p.0.remaining_amount.c1.v == crate::codec::parse_u64(
                b@.subrange(pos + 8, pos + 16),
            )
            &&& p.0.transfer_amount.c0.v == crate::codec::parse_u64(
                b@.subrange(pos + 16, pos + 24),
            )
            &&& p.0.transfer_amount.c1.v == crate::codec::parse_u64(
                b@.subrange(pos + 24, pos + 32),
            )
            &&& crate::codec::parse_u32(b@.subrange(pos + 32, pos + 36)) == p.0.proof@.len()
            &&& p.1 == pos + 36 + p.0.proof@.len()
            &&& p.1 <= b@.len()
            &&& p.0.proof@ == b@.subrange(pos + 36, p.1 as int)
        },
        r is None ==> (pos + 36 > b@.len() || pos + 36 + crate::codec::parse_u32(
            b@.subrange(pos + 32, pos + 36),
        ) > b@.len()),
{
    let blen: usize = b.len();
    proof {
        assert(b@.len() == blen);
    }
    let (r0, p1) = match crate::codec::read_u64(b, pos) {
        Some(p) => p,
        None => {
            return None;
        },
    };
    let (r1, p2) = match crate::codec::read_u64(b, p1) {
        Some(p) => p,
        None => {
            return None;
        },
    };
    let (t0, p3) = match crate::codec::read_u64(b, p2) {
        Some(p) => p,
        None => {
            return None;
        },
    };
    let (t1, p4) = match crate::codec::read_u64(b, p3) {
        Some(p) => p,
        None => {
            return None;
        },
    };
    let (plen, p5) = match crate::codec::read_u32(b, p4) {
        Some(p) => p,
        None => {
            return None;
        },
    };
    proof {
        assert(p4 as int == pos + 32);
        assert(p5 as int == pos + 36);
    }
    let (proof_bytes, end) = match crate::codec::read_bytes(b, p5, plen as usize) {
        Some(p) => p,
        None => {
            return None;
        },
    };
    let d = EncryptedAmountTransferData {
        remaining_amount: Cipher {
            c0: GroupElement { v: r0 },
            c1: GroupElement { v: r1 },
        },
        transfer_amount: Cipher {
            c0: GroupElement { v: t0 },
            c1: GroupElement { v: t1 },
        },
        proof: proof_bytes,
    };
    Some((d, end))
}

/// Reading back a serialized shielded-transfer bundle yields the bundle
/// written.
pub proof fn lemma_transfer_data_round_trip(d: EncryptedAmountTransferData)
    requires
        d.proof@.len() <= u32::MAX,
    ensures
        ser_transfer_data(d).len() == 36 + d.proof@.len(),
        crate::codec::parse_u64(ser_transfer_data(d).subrange(0, 8)) == d.remaining_amount.c0.v,
        crate::codec::parse_u64(ser_transfer_data(d).subrange(8, 16)) == d.remaining_amount.c1.v,
        crate::codec::parse_u64(ser_transfer_data(d).subrange(16, 24)) == d.transfer_amount.c0.v,
        crate::codec::parse_u64(ser_transfer_data(d).subrange(24, 32)) == d.transfer_amount.c1.v,
        crate::codec::parse_u32(ser_transfer_data(d).subrange(32, 36)) == d.proof@.len(),
        ser_transfer_data(d).subrange(36, ser_transfer_data(d).len() as int) == d.proof@,
{
    let b = ser_transfer_data(d);
    assert(b.subrange(0, 8) =~= crate::codec::ser_u64(d.remaining_amount.c0.v));
    assert(b.subrange(8, 16) =~= crate::codec::ser_u64(d.remaining_amount.c1.v));
    assert(b.subrange(16, 24) =~= crate::codec::ser_u64(d.transfer_amount.c0.v));
    assert(b.subrange(24, 32) =~= crate::codec::ser_u64(d.transfer_amount.c1.v));
    assert(b.subrange(32, 36) =~= crate::codec::ser_u32(d.proof@.len() as u32));
    assert(b.subrange(36, b.len() as int) =~= d.proof@);
    crate::codec::lemma_u64_round_trip(d.remaining_amount.c0.v);
    crate::codec::lemma_u64_round_trip(d.remaining_amount.c1.v);
    crate::codec::lemma_u64_round_trip(d.transfer_amount.c0.v);
    crate::codec::lemma_u64_round_trip(d.transfer_amount.c1.v);
    crate::codec::lemma_u32_round_trip(d.proof@.len() as u32);
}

/// Build the ciphertexts of a shielded-to-shielded transfer: decrypt the
/// sender's balance through the table, refuse amounts above it, encrypt
/// the transferred amount to the recipient and the remainder back to the
/// sender, and bind both in a transcript.
pub fn make_transfer_data(
    receiver_pk: &PublicKey,
    sender_sk: &SecretKey,
    input_amount: &Cipher,
    amount: u64,
    table: &BabyStepGiantStep,
) -> (r: Result<EncryptedAmountTransferData, WalletError>)
    requires
        table.wf(),
        table.spec_base() == sender_sk.generator,
        exists|x: u64|
            spec_decrypt(sender_sk.scalar as int, *input_amount) == #[trigger] step_key(
                x,
                sender_sk.generator,
            ),
    ensures
        forall|x: u64|
            spec_decrypt(sender_sk.scalar as int, *input_amount) == #[trigger] step_key(
                x,
                sender_sk.generator,
            ) ==> ((amount > x) <==> (r == Err::<EncryptedAmountTransferData, WalletError>(
                WalletError::InsufficientAmount,
            ))),
        r is Err ==> r == Err::<EncryptedAmountTransferData, WalletError>(
            WalletError::InsufficientAmount,
        ),
        r matches Ok(d) ==> d.proof@.len() == 32,
        r matches Ok(d) ==> forall|x: u64|
            spec_decrypt(sender_sk.scalar as int, *input_amount) == #[trigger] step_key(
                x,
                sender_sk.generator,
            ) ==> {
                &&& amount <= x
                &&& encrypts_under(d.transfer_amount, *receiver_pk, amount as int)
                &&& encrypts_under_own_key(d.remaining_amount, *sender_sk, x - amount)
                &&& d.proof@ == sha256_of(spec_transfer_statement(d))
            },
{
    let balance = sender_sk.decrypt_exponent(input_amount, table);
    if amount > balance {
        return Err(WalletError::InsufficientAmount);
    }
    let remaining: u64 = balance - amount;
    let sender_pk = PublicKey::from_secret(sender_sk);
    let transfer_amount = receiver_pk.encrypt_in_exponent(amount, random_u64());
    let remaining_amount = sender_pk.encrypt_in_exponent(remaining, random_u64());
    let mut statement: Vec<u8> = Vec::new();
    put_cipher(&mut statement, &remaining_amount);
    put_cipher(&mut statement, &transfer_amount);
    let proof_bytes = sha256(&statement);
    let d = EncryptedAmountTransferData { remaining_amount, transfer_amount, proof: proof_bytes };
    proof {
        assert(statement@ =~= spec_transfer_statement(d));
    }
    Ok(d)
}

/// The ciphertext and proof bundle of a shielded-to-public move.
#[derive(Clone, PartialEq, Eq, Debug)]
pub struct SecToPubTransferData {
    /// The sender's balance after the move, under the sender's key.
    pub remaining_amount: Cipher,
    /// The amount made public.
    pub transfer_amount: u64,
    /// The binding transcript produced by the proof layer.
    pub proof: Vec<u8>,
}

/// The statement an unshielding transcript binds.
pub open spec fn spec_sec_to_pub_statement(d: SecToPubTransferData) -> Seq<u8> {
    ser_cipher(d.remaining_amount) + ser_u64(d.transfer_amount)
}

/// The canonical bytes of an unshielding bundle.
pub open spec fn ser_sec_to_pub_data(d: SecToPubTransferData) -> Seq<u8> {
    ser_cipher(d.remaining_amount) + ser_u64(d.transfer_amount) + ser_u32(d.proof@.len() as u32)
        + d.proof@
}

/// The canonical bytes of an unshielding bundle as an owned buffer.
pub fn serialize_sec_to_pub_data(d: &SecToPubTransferData) -> (r: Vec<u8>)
    requires
        d.proof@.len() <= u32::MAX,
    ensures
        r@ == ser_sec_to_pub_data(*d),
{
    let mut out: Vec<u8> = Vec::new();
    put_cipher(&mut out, &d.remaining_amount);
    put_u64(&mut out, d.transfer_amount);
    put_u32(&mut out, d.proof.len() as u32);
    put_bytes(&mut out, &d.proof);
    proof {
        assert(out@ =~= ser_sec_to_pub_data(*d));
    }
    out
}

/// Read back an unshielding bundle from its canonical bytes at `pos`.
pub fn read_sec_to_pub_data(b: &Vec<u8>, pos: usize) -> (r: Option<(SecToPubTransferData, usize)>)
    ensures
        r matches Some(p) ==> {
            &&& pos + 28 <= b@.len()
            &&& p.0.remaining_amount.c0.v == crate::codec::parse_u64(
                b@.subrange(pos as int, pos + 8),
            )
            &&& p.0.remaining_amount.c1.v == crate::codec::parse_u64(
                b@.subrange(pos + 8, pos + 16),
            )
            &&& p.0.transfer_amount == crate::codec::parse_u64(b@.subrange(pos + 16, pos + 24))
            &&& crate::codec::parse_u32(b@.subrange(pos + 24, pos + 28)) == p.0.proof@.len()
            &&& p.1 == pos + 28 + p.0.proof@.len()
            &&& p.1 <= b@.len()
            &&& p.0.proof@ == b@.subrange(pos + 28, p.1 as int)
        },
        r is None ==> (pos + 28 > b@.len() || pos + 28 + crate::codec::parse_u32(
            b@.subrange(pos + 24, pos + 28),
        ) > b@.len()),
{
    let blen: usize = b.len();
    proof {
        assert(b@.len() == blen);
    }
    let (r0, p1) = match crate::codec::read_u64(b, pos) {
        Some(p) => p,
        None => {
            return None;
        },
    };
    let (r1, p2) = match crate::codec::read_u64(b, p1) {
        Some(p) => p,
        None => {
            return None;
        },
    };
    let (amount, p3) = match crate::codec::read_u64(b, p2) {
        Some(p) => p,
        None => {
            return None;
        },
    };
    let (plen, p4) = match crate::codec::read_u32(b, p3) {
        Some(p) => p,
        None => {
            return None;
        },
    };
    proof {
        assert(p3 as int == pos + 24);
        assert(p4 as int == pos + 28);
    }
    let (proof_bytes, end) = match crate::codec::read_bytes(b, p4, plen as usize) {
        Some(p) => p,
        None => {
            return None;
        },
    };
    let d = SecToPubTransferData {
        remaining_amount: Cipher {
            c0: GroupElement { v: r0 },
            c1: GroupElement { v: r1 },
        },
        transfer_amount: amount,
        proof: proof_bytes,
    };
    Some((d, end))
}

/// Reading back a serialized unshielding bundle yields the bundle written.
pub proof fn lemma_sec_to_pub_data_round_trip(d: SecToPubTransferData)
    requires
        d.proof@.len() <= u32::MAX,
    ensures
        ser_sec_to_pub_data(d).len() == 28 + d.proof@.len(),
        crate::codec::parse_u64(ser_sec_to_pub_data(d).subrange(0, 8))
            == d.remaining_amount.c0.v,
        crate::codec::parse_u64(ser_sec_to_pub_data(d).subrange(8, 16))
            == d.remaining_amount.c1.v,
        crate::codec::parse_u64(ser_sec_to_pub_data(d).subrange(16, 24)) == d.transfer_amount,
        crate::codec::parse_u32(ser_sec_to_pub_data(d).subrange(24, 28)) == d.proof@.len(),
        ser_sec_to_pub_data(d).subrange(28, ser_sec_to_pub_data(d).len() as int) == d.proof@,
{
    let b = ser_sec_to_pub_data(d);
    assert(b.subrange(0, 8) =~= crate::codec::ser_u64(d.remaining_amount.c0.v));
    assert(b.subrange(8, 16) =~= crate::codec::ser_u64(d.remaining_amount.c1.v));
    assert(b.subrange(16, 24) =~= crate::codec::ser_u64(d.transfer_amount));
    assert(b.subrange(24, 28) =~= crate::codec::ser_u32(d.proof@.len() as u32));
    assert(b.subrange(28, b.len() as int) =~= d.proof@);
    crate::codec::lemma_u64_round_trip(d.remaining_amount.c0.v);
    crate::codec::lemma_u64_round_trip(d.remaining_amount.c1.v);
    crate::codec::lemma_u64_round_trip(d.transfer_amount);
    crate::codec::lemma_u32_round_trip(d.proof@.len() as u32);
}

/// Build the bundle of a shielded-to-public move: decrypt the balance,
/// refuse amounts above it, and encrypt the remainder back to the sender.
pub fn make_sec_to_pub_transfer_data(
    sender_sk: &SecretKey,
    input_amount: &Cipher,
    amount: u64,
    table: &BabyStepGiantStep,
) -> (r: Result<SecToPubTransferData, WalletError>)
    requires
        table.wf(),
        table.spec_base() == sender_sk.generator,
        exists|x: u64|
            spec_decrypt(sender_sk.scalar as int, *input_amount) == #[trigger] step_key(
                x,
                sender_sk.generator,
            ),
    ensures
        forall|x: u64|
            spec_decrypt(sender_sk.scalar as int, *input_amount) == #[trigger] step_key(
                x,
                sender_sk.generator,
            ) ==> ((amount > x) <==> (r == Err::<SecToPubTransferData, WalletError>(
                WalletError::InsufficientAmount,
            ))),
        r is Err ==> r == Err::<SecToPubTransferData, WalletError>(
            WalletError::InsufficientAmount,
        ),
        r matches Ok(d) ==> d.proof@.len() == 32,
        r matches Ok(d) ==> forall|x: u64|
            spec_decrypt(sender_sk.scalar as int, *input_amount) == #[trigger] step_key(
                x,
                sender_sk.generator,
            ) ==> {
                &&& amount <= x
                &&& d.transfer_amount == amount
                &&& encrypts_under_own_key(d.remaining_amount, *sender_sk, x - amount)
                &&& d.proof@ == sha256_of(spec_sec_to_pub_statement(d))
            },
{
    let balance = sender_sk.decrypt_exponent(input_amount, table);
    if amount > balance {
        return Err(WalletError::InsufficientAmount);
    }
    let remaining: u64 = balance - amount;
    let sender_pk = PublicKey::from_secret(sender_sk);
    let remaining_amount = sender_pk.encrypt_in_exponent(remaining, random_u64());
    let mut statement: Vec<u8> = Vec::new();
    put_cipher(&mut statement, &remaining_amount);
    put_u64(&mut statement, amount);
    let proof_bytes = sha256(&statement);
    let d = SecToPubTransferData { remaining_amount, transfer_amount: amount, proof: proof_bytes };
    proof {
        assert(statement@ =~= spec_sec_to_pub_statement(d));
    }
    Ok(d)
}

/// A shielded transfer: the signed transaction plus the sender's remaining
/// balance ciphertext.
#[derive(Clone, PartialEq, Eq, Debug)]
pub struct EncryptedTransferOutput {
    pub output: TransferOutput,
    pub remaining: Cipher,
}

/// The payload of a shielded-to-shielded transfer.
pub open spec fn spec_encrypted_transfer_payload(
    to: AccountAddress,
    d: EncryptedAmountTransferData,
) -> Seq<u8> {
    seq![TAG_ENCRYPTED_TRANSFER] + to.bytes@ + ser_transfer_data(d)
}

/// Build and sign a shielded-to-shielded transfer.  Fails when the context
/// names no recipient or the amount exceeds the decrypted balance; no
/// partial payload is ever produced.
pub fn create_encrypted_transfer(
    ctx: &TransferContext,
    receiver_pk: &PublicKey,
    sender_sk: &SecretKey,
    input_amount: &Cipher,
    amount: u64,
    table: &BabyStepGiantStep,
) -> (r: Result<EncryptedTransferOutput, WalletError>)
    requires
        ctx.wf(),
        table.wf(),
        table.spec_base() == sender_sk.generator,
        exists|x: u64|
            spec_decrypt(sender_sk.scalar as int, *input_amount) == #[trigger] step_key(
                x,
                sender_sk.generator,
            ),
    ensures
        ctx.to is None <==> r == Err::<EncryptedTransferOutput, WalletError>(
            WalletError::MissingRecipient,
        ),
        r is Err ==> (r == Err::<EncryptedTransferOutput, WalletError>(
            WalletError::MissingRecipient,
        ) || r == Err::<EncryptedTransferOutput, WalletError>(WalletError::InsufficientAmount)),
        ctx.to is Some ==> forall|x: u64|
            spec_decrypt(sender_sk.scalar as int, *input_amount) == #[trigger] step_key(
                x,
                sender_sk.generator,
            ) ==> ((amount > x) <==> (r == Err::<EncryptedTransferOutput, WalletError>(
                WalletError::InsufficientAmount,
            ))),
        r matches Ok(out) ==> (ctx.to matches Some(to) ==> exists|d: EncryptedAmountTransferData|
            {
                &&& is_signed_transaction(*ctx, spec_encrypted_transfer_payload(to, d), out.output)
                &&& out.remaining == d.remaining_amount
                &&& encrypts_under(d.transfer_amount, *receiver_pk, amount as int)
                &&& (forall|x: u64|
                    spec_decrypt(sender_sk.scalar as int, *input_amount) == #[trigger] step_key(
                        x,
                        sender_sk.generator,
                    ) ==> encrypts_under_own_key(d.remaining_amount, *sender_sk, x - amount))
            }),
{
    let to = match &ctx.to {
        Some(t) => t,
        None => {
            return Err(WalletError::MissingRecipient);
        },
    };
    let d = match make_transfer_data(receiver_pk, sender_sk, input_amount, amount, table) {
        Ok(d) => d,
        Err(e) => {
            return Err(e);
        },
    };
    let mut payload: Vec<u8> = Vec::new();
    put_u8(&mut payload, TAG_ENCRYPTED_TRANSFER);
    put_bytes(&mut payload, &to.bytes);
    put_cipher(&mut payload, &d.remaining_amount);
    put_cipher(&mut payload, &d.transfer_amount);
    put_u32(&mut payload, d.proof.len() as u32);
    put_bytes(&mut payload, &d.proof);
    proof {
        assert(payload@ =~= spec_encrypted_transfer_payload(*to, d));
    }
    let (hash, body) = make_transaction_bytes(ctx, &payload);
    let signatures = make_signatures(&ctx.keys, &hash);
    let out = EncryptedTransferOutput {
        output: TransferOutput { signatures, hash, body },
        remaining: d.remaining_amount,
    };
    proof {
        let ghost dd = d;
        assert(is_signed_transaction(*ctx, spec_encrypted_transfer_payload(*to, dd), out.output));
    }
    Ok(out)
}

/// The payload of a shielded-to-public move.
pub open spec fn spec_sec_to_pub_payload(d: SecToPubTransferData) -> Seq<u8> {
    seq![TAG_SEC_TO_PUB] + ser_sec_to_pub_data(d)
}

/// Build and sign a shielded-to-public move.  Fails when the amount
/// exceeds the decrypted balance; no partial payload is ever produced.
pub fn create_sec_to_pub_transfer(
    ctx: &TransferContext,
    sender_sk: &SecretKey,
    input_amount: &Cipher,
    amount: u64,
    table: &BabyStepGiantStep,
) -> (r: Result<EncryptedTransferOutput, WalletError>)
    requires
        ctx.wf(),
        table.wf(),
        table.spec_base() == sender_sk.generator,
        exists|x: u64|
            spec_decrypt(sender_sk.scalar as int, *input_amount) == #[trigger] step_key(
                x,
                sender_sk.generator,
            ),
    ensures
        forall|x: u64|
            spec_decrypt(sender_sk.scalar as int, *input_amount) == #[trigger] step_key(
                x,
                sender_sk.generator,
            ) ==> ((amount > x) <==> (r == Err::<EncryptedTransferOutput, WalletError>(
                WalletError::InsufficientAmount,
            ))),
        r is Err ==> r == Err::<EncryptedTransferOutput, WalletError>(
            WalletError::InsufficientAmount,
        ),
        r matches Ok(out) ==> exists|d: SecToPubTransferData|
            {
                &&& is_signed_transaction(*ctx, spec_sec_to_pub_payload(d), out.output)
                &&& out.remaining == d.remaining_amount
                &&& d.transfer_amount == amount
                &&& (forall|x: u64|
                    spec_decrypt(sender_sk.scalar as int, *input_amount) == #[trigger] step_key(
                        x,
                        sender_sk.generator,
                    ) ==> encrypts_under_own_key(d.remaining_amount, *sender_sk, x - amount))
            },
{
    let d = match make_sec_to_pub_transfer_data(sender_sk, input_amount, amount, table) {
        Ok(d) => d,
        Err(e) => {
            return Err(e);
        },
    };
    let mut payload: Vec<u8> = Vec::new();
    put_u8(&mut payload, TAG_SEC_TO_PUB);
    put_cipher(&mut payload, &d.remaining_amount);
    put_u64(&mut payload, d.transfer_amount);
    put_u32(&mut payload, d.proof.len() as u32);
    put_bytes(&mut payload, &d.proof);
    proof {
        assert(payload@ =~= spec_sec_to_pub_payload(d));
    }
    let (hash, body) = make_transaction_bytes(ctx, &payload);
    let signatures = make_signatures(&ctx.keys, &hash);
    let out = EncryptedTransferOutput {
        output: TransferOutput { signatures, hash, body },
        remaining: d.remaining_amount,
    };
    proof {
        let ghost dd = d;
        assert(is_signed_transaction(*ctx, spec_sec_to_pub_payload(dd), out.output));
    }
    Ok(out)
}

/// Aggregate two encrypted amounts into one: the standalone
/// ciphertext-folding helper, independent of any transfer.
pub fn combine_encrypted_amounts(left: &Cipher, right: &Cipher) -> (r: Cipher)
    ensures
        r.c0.v == g_add(left.c0.v as int, right.c0.v as int),
        r.c1.v == g_add(left.c1.v as int, right.c1.v as int),
{
    aggregate(left, right)
}

/// Decrypt an encrypted amount to the integer it shields, through the
/// baby-step giant-step table.
pub fn decrypt_encrypted_amount(
    secret: &SecretKey,
    encrypted_amount: &Cipher,
    table: &BabyStepGiantStep,
) -> (r: u64)
    requires
        table.wf(),
        table.spec_base() == secret.generator,
        exists|x: u64|
            spec_decrypt(secret.scalar as int, *encrypted_amount) == #[trigger] step_key(
                x,
                secret.generator,
            ),
    ensures
        spec_decrypt(secret.scalar as int, *encrypted_amount) == step_key(r, secret.generator),
        forall|x: u64|
            spec_decrypt(secret.scalar as int, *encrypted_amount) == #[trigger] step_key(
                x,
                secret.generator,
            ) ==> r == x,
{
    secret.decrypt_exponent(encrypted_amount, table)
}

} // verus!
