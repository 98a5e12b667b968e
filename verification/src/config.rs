//! Settings of the commit tool.

use vstd::prelude::*;

verus! {

/// The settings: the commit types on offer, and the banner font file, if one
/// is configured.
#[derive(Debug, Clone)]
pub struct Config {
    pub types: Vec<String>,
    pub figlet_file: Option<String>,
}

/// The commit types that are on offer when nothing else is configured.
pub open spec fn default_types() -> Seq<Seq<char>> {
    seq![
        "ci"@,
        "chore"@,
        "docs"@,
        "feat"@,
        "fix"@,
        "junk"@,
        "misc"@,
        "refactor"@,
        "revert"@,
        "style"@,
        "test"@,
    ]
}

impl Default for Config {
    fn default() -> (config: Self)
        ensures
            config.types.deep_view() == default_types(),
            config.figlet_file.is_none(),
    {
        let mut types: Vec<String> = Vec::new();
        types.push("ci".to_owned());
        types.push("chore".to_owned());
        types.push("docs".to_owned());
        types.push("feat".to_owned());
        types.push("fix".to_owned());
        types.push("junk".to_owned());
        types.push("misc".to_owned());
        types.push("refactor".to_owned());
        types.push("revert".to_owned());
        types.push("style".to_owned());
        types.push("test".to_owned());
        assert(types.deep_view() =~= default_types());
        Config { types, figlet_file: None }
    }
}

} // verus!
