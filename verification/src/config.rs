//! Service configuration, established once at start and passed to every
//! component that needs it.
use vstd::prelude::*;

verus! {

/// Per-deployment settings: the default tries budget, the solution length
/// bounds, the solution alphabet, and the default record lifetime in
/// seconds.
#[derive(Clone)]
pub struct Config {
    pub max_tries: usize,
    pub min_letters: usize,
    pub max_letters: usize,
    pub characters: String,
    pub expire: usize,
}

/// Accepts a configuration exactly when the length bounds are ordered, at
/// least one letter is asked for, and the alphabet is non-empty.
pub fn validate_config(c: &Config) -> (r: Result<(), String>)
    ensures
        r is Ok <==> (c.min_letters <= c.max_letters && c.min_letters >= 1 && c.characters@.len()
            > 0),
{
    if c.min_letters > c.max_letters {
        return Err(String::from_str(
            "The value for min_letters must not be larger than max_letters.",
        ));
    }
    if c.min_letters == 0 {
        return Err(String::from_str("The value for min_letters must be greater than zero."));
    }
    if c.characters.as_str().unicode_len() == 0 {
        return Err(String::from_str("The value for characters must not be empty."));
    }
    Ok(())
}

} // verus!
