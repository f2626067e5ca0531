//! The configuration of one scan. The surrounding program decides the case
//! sensitivity (for instance from its environment) and hands it in as a plain
//! value: the library never reads ambient process state.
use vstd::prelude::*;

verus! {

/// What one invocation scans: the query, the path to scan, and whether
/// matching is case-sensitive.
pub struct Config {
    pub query: String,
    pub filename: String,
    pub case_sensitive: bool,
}

impl Config {
    /// Builds the configuration from the argument list, whose first element
    /// is the program name and is skipped, and the chosen case sensitivity.
    pub fn new(args: Vec<String>, case_sensitive: bool) -> (r: Result<Config, &'static str>)
        ensures
            args@.len() < 2 ==> (r matches Err(m) && m@ == "Query argument not provided"@),
            args@.len() == 2 ==> (r matches Err(m) && m@ == "Filename argument not provided"@),
            args@.len() >= 3 ==> (r matches Ok(c) && c.query@ == args@[1]@ && c.filename@
                == args@[2]@ && c.case_sensitive == case_sensitive),
    {
        if args.len() < 2 {
            return Err("Query argument not provided");
        }
        if args.len() < 3 {
            return Err("Filename argument not provided");
        }
        let query = args[1].clone();
        let filename = args[2].clone();
        Ok(Config { query, filename, case_sensitive })
    }
}

} // verus!
