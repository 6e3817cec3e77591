use vstd::prelude::*;

use crate::digest::digest_matches;
use crate::digest::sha256_hex_of;
use crate::reconcile::lookup;

verus! {

/// The metadata a packs list holds about one pack: a display name, the URL
/// its manifest can be fetched from, and the digest the manifest's raw text
/// must hash to before it may be parsed.
#[derive(Debug)]
pub struct ManifestMetadata {
    /// Human-readable name of the pack.
    pub display_name: String,
    manifest_url: String,
    manifest_sha: String,
}

/// The mathematical value of a [`ManifestMetadata`].
#[verifier::ext_equal]
pub struct ManifestMetadataV {
    pub display_name: Seq<char>,
    pub manifest_url: Seq<char>,
    pub manifest_sha: Seq<char>,
}

impl DeepView for ManifestMetadata {
    type V = ManifestMetadataV;

    closed spec fn deep_view(&self) -> ManifestMetadataV {
        ManifestMetadataV {
            display_name: self.display_name@,
            manifest_url: self.manifest_url@,
            manifest_sha: self.manifest_sha@,
        }
    }
}

impl ManifestMetadata {
    /// Builds the metadata of one pack.
    pub fn new(display_name: String, manifest_url: String, manifest_sha: String) -> (r: Self)
        ensures
            r.deep_view() == (ManifestMetadataV {
                display_name: display_name@,
                manifest_url: manifest_url@,
                manifest_sha: manifest_sha@,
            }),
    {
        ManifestMetadata { display_name, manifest_url, manifest_sha }
    }

    /// The URL the pack's manifest is fetched from.
    pub fn manifest_url(&self) -> (r: &String)
        ensures
            r@ == self.deep_view().manifest_url,
    {
        &self.manifest_url
    }

    /// The integrity gate for a fetched manifest: its raw text may be parsed
    /// into a directory tree only when the text hashes to the declared
    /// digest. A mismatched manifest yields no tree at all.
    pub fn verify_manifest_text(&self, text: &[u8]) -> (r: bool)
        ensures
            r == (self.deep_view().manifest_sha == sha256_hex_of(text@)),
    {
        digest_matches(text, &self.manifest_sha)
    }
}

/// Why no featured pack could be resolved from a packs list.
#[derive(Debug)]
pub enum FeaturedPackError {
    /// The list names no featured pack.
    Unspecified,
    /// The named featured pack is not in the list.
    Invalid,
}

/// A packs list: pack identifiers mapped to their metadata, names unique,
/// and optionally the identifier of one featured pack.
#[derive(Debug)]
pub struct PacksListManifest {
    /// Pack identifier to metadata, unique identifiers.
    pub packs: Vec<(String, ManifestMetadata)>,
    /// The identifier of the featured pack, if one is named.
    pub featured_pack: Option<String>,
}

impl PacksListManifest {
    /// Resolves the featured pack: its metadata when the list names one and
    /// the list holds it, and otherwise which of the two failed.
    pub fn get_featured_pack_metadata(&self) -> (r: Result<&ManifestMetadata, FeaturedPackError>)
        ensures
            match r {
                Ok(m) => {
                    &&& self.featured_pack matches Some(name)
                    &&& lookup(self.packs.deep_view(), name@) == Some(m.deep_view())
                },
                Err(FeaturedPackError::Unspecified) => self.featured_pack is None,
                Err(FeaturedPackError::Invalid) => {
                    &&& self.featured_pack matches Some(name)
                    &&& lookup(self.packs.deep_view(), name@) is None
                },
            },
    {
        let featured = match &self.featured_pack {
            Some(name) => name,
            None => {
                return Err(FeaturedPackError::Unspecified);
            },
        };
        match crate::reconcile::assoc_find(&self.packs, featured) {
            Some(m) => Ok(m),
            None => Err(FeaturedPackError::Invalid),
        }
    }
}

} // verus!
