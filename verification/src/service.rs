//! The creation path: allocate a short key (the requested custom name,
//! normalized and checked, or a generated identifier retried on collision),
//! write the record, and render the QR image of the short URL.

use vstd::prelude::*;
use vstd::string::StrSliceExecFns;
use vstd::string::StringExecFns;
use crate::shortkey::{
    normal_key, normalize_name, short_key_of, short_key_from_seed, AllocationError, MAX_NAME_LEN,
    MIN_NAME_LEN,
};
use crate::store::{LinkRecordV, MemoryStore};
use crate::text::{contains_str, is_substring};
use crate::validate::{validate, validate_spec, ValidationError};

verus! {

/// The normalized key a request asks for; empty when no name was given or
/// nothing of it survives normalization.
pub open spec fn requested_key(name: Option<Seq<char>>) -> Seq<char> {
    match name {
        Option::None => Seq::empty(),
        Option::Some(s) => normal_key(s),
    }
}

/// The characters of an optional name field.
pub open spec fn opt_str_view(name: Option<&str>) -> Option<Seq<char>> {
    match name {
        Option::None => Option::None,
        Option::Some(s) => Option::Some(s@),
    }
}

/// The key generation yields: the first seed whose six-character
/// identifier is free, or exhaustion once every seed has collided.
pub open spec fn gen_key(m: Map<Seq<char>, LinkRecordV>, seeds: Seq<u64>) -> Result<
    Seq<char>,
    AllocationError,
>
    decreases seeds.len(),
{
    if seeds.len() == 0 {
        Err(AllocationError::AllocationExhausted)
    } else if !m.contains_key(short_key_of(seeds[0])) {
        Ok(short_key_of(seeds[0]))
    } else {
        gen_key(m, seeds.drop_first())
    }
}

/// The key allocation yields for a store, a normalized requested key, and
/// the candidate seeds: the name itself after the length and existence
/// checks, or a generated key when no usable name was requested.
pub open spec fn chosen_key(
    m: Map<Seq<char>, LinkRecordV>,
    nk: Seq<char>,
    seeds: Seq<u64>,
) -> Result<Seq<char>, AllocationError> {
    if nk.len() == 0 {
        gen_key(m, seeds)
    } else if nk.len() < MIN_NAME_LEN as nat || nk.len() > MAX_NAME_LEN as nat {
        Err(AllocationError::InvalidNameLength)
    } else if m.contains_key(nk) {
        Err(AllocationError::NameTaken)
    } else {
        Ok(nk)
    }
}

/// Allocates a short key against the current store contents. The store is
/// only read — existence checks here, the write elsewhere — so allocation
/// by itself never mutates it. Each seed in `seeds` is one generation
/// attempt; the length of the list is the retry bound.
pub fn allocate(store: &MemoryStore, custom_name: Option<&str>, seeds: &Vec<u64>) -> (r: Result<
    String,
    AllocationError,
>)
    ensures
        match r {
            Ok(k) => chosen_key(store@, requested_key(opt_str_view(custom_name)), seeds@)
                == Ok::<Seq<char>, AllocationError>(k@),
            Err(e) => chosen_key(store@, requested_key(opt_str_view(custom_name)), seeds@)
                == Err::<Seq<char>, AllocationError>(e),
        },
{
    if let Option::Some(name) = custom_name {
        let nk = normalize_name(name);
        if nk.as_str().unicode_len() != 0 {
            return alloc_custom(store, nk);
        }
    }
    let n: usize = seeds.len();
    let mut i: usize = 0;
    proof {
        assert(seeds@.subrange(0, n as int) =~= seeds@);
    }
    while i < n
        invariant
            i <= n,
            n == seeds@.len(),
            requested_key(opt_str_view(custom_name)).len() == 0,
            gen_key(store@, seeds@.subrange(i as int, n as int)) == gen_key(store@, seeds@),
        decreases n - i,
    {
        let candidate = short_key_from_seed(seeds[i]);
        proof {
            assert(seeds@.subrange(i as int, n as int)[0] == seeds@[i as int]);
        }
        if !store.contains(candidate.as_str()) {
            return Ok(candidate);
        }
        proof {
            assert(seeds@.subrange(i as int, n as int).drop_first() =~= seeds@.subrange(
                i + 1,
                n as int,
            ));
        }
        i = i + 1;
    }
    proof {
        assert(seeds@.subrange(n as int, n as int).len() == 0);
    }
    Err(AllocationError::AllocationExhausted)
}

fn alloc_custom(store: &MemoryStore, nk: String) -> (r: Result<String, AllocationError>)
    requires
        nk@.len() != 0,
    ensures
        match r {
            Ok(k) => chosen_key(store@, nk@, Seq::empty()) == Ok::<Seq<char>, AllocationError>(
                k@,
            ) && k@ == nk@,
            Err(e) => chosen_key(store@, nk@, Seq::empty()) == Err::<Seq<char>, AllocationError>(
                e,
            ),
        },
{
    let n: usize = nk.as_str().unicode_len();
    if n < MIN_NAME_LEN || n > MAX_NAME_LEN {
        return Err(AllocationError::InvalidNameLength);
    }
    if store.contains(nk.as_str()) {
        return Err(AllocationError::NameTaken);
    }
    Ok(nk)
}

/// The base of the short URL for the host a request came in on: plain
/// `http` for local hosts, `https` elsewhere.
pub open spec fn base_url_of(host: Seq<char>) -> Seq<char> {
    if is_substring(host, "localhost"@) {
        "http://"@ + host
    } else {
        "https://"@ + host
    }
}

/// Builds the scheme-and-host base of the short URL.
pub fn base_url_for_host(host: &str) -> (r: String)
    ensures
        r@ == base_url_of(host@),
{
    if contains_str(host, "localhost") {
        String::from_str("http://").concat(host)
    } else {
        String::from_str("https://").concat(host)
    }
}

/// Whether the QR encoder accepts the data, which fails only when the data
/// fits no QR code version.
pub uninterp spec fn qr_encodable(s: Seq<char>) -> bool;

/// The scalable-vector markup the QR encoder renders for the data, at the
/// fixed dimensions and colors this service uses.
pub uninterp spec fn qr_svg_of(s: Seq<char>) -> Seq<char>;

/// Relies on `qrcode::QrCode::new` and its svg renderer: with fixed render
/// settings both are pure functions of the data bytes, and `new` fails
/// exactly when the data is too long for every QR code version.
#[verifier::external_body]
fn render_qr_svg(data: &str) -> (r: Option<String>)
    ensures
        (r is Some) == qr_encodable(data@),
        (r matches Some(s) ==> s@ == qr_svg_of(data@)),
{
    match qrcode::QrCode::new(data.as_bytes()) {
        Ok(code) => Some(
            code.render::<qrcode::render::svg::Color>().min_dimensions(300, 300).dark_color(
                qrcode::render::svg::Color("#000000"),
            ).light_color(qrcode::render::svg::Color("#ffffff")).build(),
        ),
        Err(_) => None,
    }
}

/// Why a creation request failed.
#[derive(Debug, PartialEq, Eq, Structural, Clone, Copy)]
pub enum CreateError {
    /// The destination URL was rejected; the store stands unchanged.
    Validation(ValidationError),
    /// No key could be allocated; the store stands unchanged.
    Allocation(AllocationError),
    /// The QR encoder rejected the short URL. The record was already
    /// written when this surfaces: there is no cleanup of the single put.
    Encoding,
}

/// What a successful creation hands back.
#[derive(Debug, PartialEq, Eq)]
pub struct CreateOutcome {
    /// The short key the record was stored under.
    pub key: String,
    /// The validated destination URL that was stored.
    pub destination: String,
    /// The full short URL, base and key joined by a slash.
    pub short_url: String,
    /// The QR rendering of the short URL, as svg markup.
    pub qr_svg: String,
}

/// The short URL a key is served under.
pub open spec fn short_url_of(host: Seq<char>, k: Seq<char>) -> Seq<char> {
    base_url_of(host) + "/"@ + k
}

/// Handles one creation request against the store: validates the raw URL,
/// allocates a key — the normalized custom name, or a generated identifier
/// tried once per seed — writes the record, and renders the QR image of
/// the short URL. Validation and allocation errors leave the store as it
/// was; an encoding error surfaces only after the record is written.
pub fn create_link(
    store: &mut MemoryStore,
    custom_name: Option<&str>,
    raw_url: &str,
    created_by: &str,
    created_at: u64,
    host: &str,
    seeds: &Vec<u64>,
) -> (r: Result<CreateOutcome, CreateError>)
    ensures
        match r {
            Ok(out) => {
                &&& validate_spec(raw_url@) matches Ok(d) && out.destination@ == d
                &&& chosen_key(old(store)@, requested_key(opt_str_view(custom_name)), seeds@)
                    matches Ok(k) && out.key@ == k
                &&& out.short_url@ == short_url_of(host@, out.key@)
                &&& qr_encodable(out.short_url@)
                &&& out.qr_svg@ == qr_svg_of(out.short_url@)
                &&& final(store)@ == old(store)@.insert(
                    out.key@,
                    LinkRecordV {
                        destination: out.destination@,
                        created_by: created_by@,
                        created_at,
                    },
                )
            },
            Err(CreateError::Validation(e)) => {
                &&& validate_spec(raw_url@) == Err::<Seq<char>, ValidationError>(e)
                &&& final(store)@ == old(store)@
            },
            Err(CreateError::Allocation(e)) => {
                &&& validate_spec(raw_url@) is Ok
                &&& chosen_key(old(store)@, requested_key(opt_str_view(custom_name)), seeds@)
                    == Err::<Seq<char>, AllocationError>(e)
                &&& final(store)@ == old(store)@
            },
            Err(CreateError::Encoding) => {
                &&& validate_spec(raw_url@) matches Ok(d)
                &&& chosen_key(old(store)@, requested_key(opt_str_view(custom_name)), seeds@)
                    matches Ok(k) && !qr_encodable(short_url_of(host@, k)) && final(store)@ == old(
                    store,
                )@.insert(
                    k,
                    LinkRecordV {
                        destination: validate_spec(raw_url@)->Ok_0,
                        created_by: created_by@,
                        created_at,
                    },
                )
            },
        },
{
    let destination = match validate(raw_url) {
        Ok(u) => u,
        Err(e) => {
            return Err(CreateError::Validation(e));
        },
    };
    let key = match allocate(store, custom_name, seeds) {
        Ok(k) => k,
        Err(e) => {
            return Err(CreateError::Allocation(e));
        },
    };
    crate::store::write(store, key.as_str(), destination.as_str(), created_by, created_at);
    let base = base_url_for_host(host);
    let short_url = base.concat("/").concat(key.as_str());
    match render_qr_svg(short_url.as_str()) {
        Option::Some(markup) => Ok(
            CreateOutcome { key, destination, short_url, qr_svg: markup },
        ),
        Option::None => Err(CreateError::Encoding),
    }
}

/// A custom name whose normalized length falls outside 2 to 20 is
/// rejected with the length error, whatever the store holds and whatever
/// seeds stand by.
pub proof fn lemma_allocation_rejects_bad_length(
    m: Map<Seq<char>, LinkRecordV>,
    nk: Seq<char>,
    seeds: Seq<u64>,
)
    requires
        nk.len() != 0,
        nk.len() < MIN_NAME_LEN as nat || nk.len() > MAX_NAME_LEN as nat,
    ensures
        chosen_key(m, nk, seeds) == Err::<Seq<char>, AllocationError>(
            AllocationError::InvalidNameLength,
        ),
{
}

/// A well-formed custom name that is already mapped is rejected with
/// `NameTaken`; the store stands as it was, since allocation only reads it.
pub proof fn lemma_allocation_rejects_taken(
    m: Map<Seq<char>, LinkRecordV>,
    nk: Seq<char>,
    seeds: Seq<u64>,
)
    requires
        MIN_NAME_LEN as nat <= nk.len() <= MAX_NAME_LEN as nat,
        m.contains_key(nk),
    ensures
        chosen_key(m, nk, seeds) == Err::<Seq<char>, AllocationError>(AllocationError::NameTaken),
{
}

} // verus!
