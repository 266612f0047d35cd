//! The search configuration: a query, the name of the file to search, and
//! the case-sensitivity flag, built from a plain argument list.

use vstd::prelude::*;

verus! {

/// One search run's inputs: what to look for, where, and how to compare.
pub struct Config {
    pub query: String,
    pub filename: String,
    pub case_sensitive: bool,
}

impl Config {
    /// Build a configuration from an argument list whose first entry is the
    /// program name, followed by the query and the file name; reject a list
    /// that is too short, naming the first argument it misses.
    pub fn new(args: Vec<String>, case_sensitive: bool) -> (r: Result<Config, &'static str>)
        ensures
            args@.len() >= 3 ==> (r matches Ok(c) && c.query@ == args@[1]@ && c.filename@
                == args@[2]@ && c.case_sensitive == case_sensitive),
            args@.len() < 2 ==> (r matches Err(m) && m@ == "missing argument (query string)"@),
            args@.len() == 2 ==> (r matches Err(m) && m@ == "missing argument (file name)"@),
    {
        if args.len() < 2 {
            return Err("missing argument (query string)");
        }
        if args.len() < 3 {
            return Err("missing argument (file name)");
        }
        let query = args[1].clone();
        let filename = args[2].clone();
        Ok(Config { query, filename, case_sensitive })
    }
}

} // verus!
