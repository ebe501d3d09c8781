use vstd::prelude::*;

verus! {

/// One entry of the registry: a short code bound to its target URL, together
/// with provenance (creator identity, creation time) and an access counter.
///
/// A `created_at` of `0` is a reserved sentinel meaning "no such mapping": a
/// real stored mapping always carries a creation time of at least `1`.
pub struct UrlMapping {
    /// The short, caller-chosen lookup key; non-empty for any real mapping.
    pub short_code: String,
    /// The full redirect target.
    pub original_url: String,
    /// The identity that created the mapping, set once and never changed.
    pub creator: String,
    /// Host-clock timestamp of creation; `0` means "mapping does not exist".
    pub created_at: u64,
    /// How many times the mapping has been successfully resolved.
    pub click_count: u64,
}

/// The mathematical value of a `UrlMapping`: the same five fields with the
/// strings read as character sequences.
#[verifier::ext_equal]
pub ghost struct MappingModel {
    pub short_code: Seq<char>,
    pub original_url: Seq<char>,
    pub creator: Seq<char>,
    pub created_at: u64,
    pub click_count: u64,
}

impl View for UrlMapping {
    type V = MappingModel;

    open spec fn view(&self) -> MappingModel {
        MappingModel {
            short_code: self.short_code@,
            original_url: self.original_url@,
            creator: self.creator@,
            created_at: self.created_at,
            click_count: self.click_count,
        }
    }
}

impl Clone for UrlMapping {
    fn clone(&self) -> (r: Self)
        ensures
            r@ == self@,
    {
        UrlMapping {
            short_code: self.short_code.clone(),
            original_url: self.original_url.clone(),
            creator: self.creator.clone(),
            created_at: self.created_at,
            click_count: self.click_count,
        }
    }
}

impl MappingModel {
    /// The canonical "absent" value: empty short code, the `"NOT_FOUND"`
    /// target, a fixed placeholder creator, creation time `0` (the absence
    /// sentinel) and no recorded accesses.
    pub open spec fn absent() -> MappingModel {
        MappingModel {
            short_code: Seq::<char>::empty(),
            original_url: "NOT_FOUND"@,
            creator: "GAAAAAAAAAAAAAAAAAAAAAAAAAAAAAAAAAAAAAAAAAAAAAAAAAAAAAAAD2KM"@,
            created_at: 0,
            click_count: 0,
        }
    }
}

impl UrlMapping {
    /// Builds the canonical absent value that lookups of an unknown short
    /// code hand back in place of a stored mapping.
    pub fn absent() -> (r: Self)
        ensures
            r@ == MappingModel::absent(),
    {
        let r = UrlMapping {
            short_code: String::new(),
            original_url: "NOT_FOUND".to_owned(),
            creator: "GAAAAAAAAAAAAAAAAAAAAAAAAAAAAAAAAAAAAAAAAAAAAAAAAAAAAAAAD2KM".to_owned(),
            created_at: 0,
            click_count: 0,
        };
        proof {
            assert(r@ =~= MappingModel::absent());
        }
        r
    }
}

/// The key under which a mapping is filed in the durable store: one tagged
/// key per short code.
pub enum UrlBook {
    Url(String),
}

impl View for UrlBook {
    type V = Seq<char>;

    open spec fn view(&self) -> Seq<char> {
        match self {
            UrlBook::Url(code) => code@,
        }
    }
}

impl UrlBook {
    /// The short code this key files its mapping under.
    pub fn code(&self) -> (r: &str)
        ensures
            r@ == self@,
    {
        match self {
            UrlBook::Url(code) => code.as_str(),
        }
    }
}

/// Why a creation request was refused. Both are hard failures: a refused
/// request changes no state at all.
#[derive(Clone, Copy, Debug, PartialEq, Eq, Structural)]
pub enum UrlError {
    /// The caller could not prove control of the claimed creator identity.
    Unauthorized,
    /// The short code is already bound to a mapping.
    DuplicateShortCode,
}

} // verus!
