//! The files a run reads and writes: which configuration file counts, and
//! what a signed document is called.

use vstd::prelude::*;

verus! {

/// What became of reading the configuration file.
pub enum ConfigRead<E> {
    /// Its text.
    Read(String),
    /// It does not exist.
    NotFound(E),
    /// It exists but could not be read.
    Failed(E),
}

/// What to do about the configuration file.
pub enum ConfigUse<E> {
    /// Parse this text.
    Parse(String),
    /// Go on with every setting at its default.
    Defaults,
    /// Stop with this error.
    Fail(E),
}

/// What to do with the outcome of reading the configuration file. A missing
/// file is only an error if the user named it; the default one may well not
/// exist.
pub fn use_config<E>(explicit: bool, read: ConfigRead<E>) -> (r: ConfigUse<E>)
    ensures
        match read {
            ConfigRead::Read(text) => r == ConfigUse::<E>::Parse(text),
            ConfigRead::NotFound(error) => if explicit {
                r == ConfigUse::<E>::Fail(error)
            } else {
                r == ConfigUse::<E>::Defaults
            },
            ConfigRead::Failed(error) => r == ConfigUse::<E>::Fail(error),
        },
{
    match read {
        ConfigRead::Read(text) => ConfigUse::Parse(text),
        ConfigRead::NotFound(error) => if explicit {
            ConfigUse::Fail(error)
        } else {
            ConfigUse::Defaults
        },
        ConfigRead::Failed(error) => ConfigUse::Fail(error),
    }
}

/// The suffix that marks a signed copy.
pub const SIGNED_SUFFIX: &'static str = "_signed.pdf";

/// The file name of the signed copy of a document whose name, without its
/// extension, is `stem`: `<stem>_signed.pdf`, beside the original.
pub fn signed_file_name(stem: &str) -> (r: String)
    ensures
        r@ == stem@ + SIGNED_SUFFIX@,
{
    let mut name = String::from_str(stem);
    name.append(SIGNED_SUFFIX);
    name
}

} // verus!
