//! Reading and editing a Cargo manifest as text: the branch of the
//! polkadot-sdk repository that its dependencies are taken from, and the
//! lines that make it depend on the sudo pallet.

use crate::search::{
    contains, find, find_in, first_line, has, lines, position, replace_all, replaced, seek, text_of,
    to_chars,
};
use vstd::prelude::*;

verus! {

/// What marks a dependency that is taken from the polkadot-sdk repository.
pub open spec fn sdk_marker() -> Seq<char> {
    "git = \"https://github.com/paritytech/polkadot-sdk\""@
}

/// What precedes the name of a branch.
pub open spec fn branch_key() -> Seq<char> {
    "branch = \""@
}

/// The branch that a line names: what follows the first `branch = "` up to
/// the next double quote, or up to the end of the line where no quote
/// follows. `None` where the line names no branch.
pub open spec fn branch_in(line: Seq<char>) -> Option<Seq<char>> {
    match find(line, branch_key()) {
        Some(at) => {
            let rest = line.skip(at + branch_key().len());
            Some(rest.take(position(rest, '"') as int))
        },
        None => None,
    }
}

/// The branch named by the first of `rows` that holds the marker of the
/// polkadot-sdk repository. Later lines are not looked at, even where that
/// first line names no branch.
pub open spec fn branch_of_first_sdk_line(rows: Seq<Seq<char>>) -> Option<Seq<char>>
    decreases rows.len(),
{
    if rows.len() == 0 {
        None
    } else if contains(rows[0], sdk_marker()) {
        branch_in(rows[0])
    } else {
        branch_of_first_sdk_line(rows.drop_first())
    }
}

/// The polkadot-sdk branch that a manifest depends on.
pub open spec fn sniffed_branch(manifest: Seq<char>) -> Option<Seq<char>> {
    branch_of_first_sdk_line(lines(manifest))
}

/// The branch of the polkadot-sdk repository that a manifest depends on:
/// the one named on the first line that takes a dependency from that
/// repository. `None` where no line does, or where that line names no
/// branch.
pub fn sniff_branch(cargo_toml: &str) -> (branch: Option<&str>)
    ensures
        match branch {
            Some(name) => sniffed_branch(cargo_toml@) == Some(name@),
            None => sniffed_branch(cargo_toml@) is None,
        },
{
    let text = to_chars(cargo_toml);
    let marker = to_chars("git = \"https://github.com/paritytech/polkadot-sdk\"");
    let key = to_chars("branch = \"");
    let mut start: usize = 0;
    assert(text@.skip(0) =~= text@);
    while start < text.len()
        invariant
            start <= text.len(),
            text@ == cargo_toml@,
            marker@ == sdk_marker(),
            key@ == branch_key(),
            sniffed_branch(text@) == branch_of_first_sdk_line(lines(text@.skip(start as int))),
        decreases text.len() - start,
    {
        let ghost tail = text@.skip(start as int);
        assert(tail =~= text@.subrange(start as int, text.len() as int));
        let end: usize = start + seek(&text, start, text.len(), '\n');
        let stop: usize = if end < text.len() && end > start && text[end - 1] == '\r' {
            end - 1
        } else {
            end
        };
        let ghost line = first_line(tail);
        assert(line =~= text@.subrange(start as int, stop as int));
        assert(lines(tail)[0] == line);
        if find_in(&text, start, stop, &marker).is_some() {
            match find_in(&text, start, stop, &key) {
                None => {
                    return None;
                },
                Some(at) => {
                    let from: usize = start + at + key.len();
                    let to: usize = from + seek(&text, from, stop, '"');
                    let ghost rest = line.skip(at + key@.len());
                    assert(rest =~= text@.subrange(from as int, stop as int));
                    assert(rest.take(to - from) =~= text@.subrange(from as int, to as int));
                    return Some(cargo_toml.substring_char(from, to));
                },
            }
        }
        if end < text.len() {
            assert(lines(tail).drop_first() =~= lines(tail.skip(end - start + 1)));
            assert(tail.skip(end - start + 1) =~= text@.skip(end + 1));
            start = end + 1;
        } else {
            assert(lines(tail).drop_first() =~= Seq::<Seq<char>>::empty());
            assert(text@.skip(end as int) =~= Seq::<char>::empty());
            start = end;
        }
    }
    assert(text@.skip(start as int) =~= Seq::<char>::empty());
    None
}

/// The manifest line that takes the sudo pallet from `branch` of the
/// polkadot-sdk repository.
pub open spec fn git_dependency(branch: Seq<char>) -> Seq<char> {
    "pallet-sudo = { git = \"https://github.com/paritytech/polkadot-sdk\", default-features = false, branch = \""@
        + branch + "\" }"@
}

/// The manifest line that takes the sudo pallet from its place in the
/// polkadot-sdk source tree.
pub open spec fn path_dependency() -> Seq<char> {
    "pallet-sudo = { path = \"../../../substrate/frame/sudo\", default-features = false }"@
}

/// The manifest line for the sudo pallet. With a branch given, the pallet
/// comes from the repository, on the branch that the manifest already
/// depends on, or on the given one where the manifest names none. Without
/// one, the pallet comes from the source tree.
pub open spec fn sudo_dependency_of(manifest: Seq<char>, branch: Option<Seq<char>>) -> Seq<char> {
    match branch {
        Some(fallback) => git_dependency(
            match sniffed_branch(manifest) {
                Some(found) => found,
                None => fallback,
            },
        ),
        None => path_dependency(),
    }
}

/// The manifest with the line `sudo_crate` and an empty line before each
/// `[dev-dependencies]`; `None` where the manifest holds the line already.
pub open spec fn with_dependency(manifest: Seq<char>, sudo_crate: Seq<char>) -> Option<Seq<char>> {
    if contains(manifest, sudo_crate) {
        None
    } else {
        Some(
            replaced(
                manifest,
                "[dev-dependencies]"@,
                sudo_crate + "\n\n[dev-dependencies]"@,
            ),
        )
    }
}

/// The manifest with the `std` feature of the sudo pallet after each `std`
/// feature of the staking pallet; `None` where the manifest names the
/// feature already.
pub open spec fn with_std_feature(manifest: Seq<char>) -> Option<Seq<char>> {
    if contains(manifest, "pallet-sudo/std"@) {
        None
    } else {
        Some(
            replaced(
                manifest,
                "\"pallet-staking/std\","@,
                "\"pallet-staking/std\",\n\t\"pallet-sudo/std\","@,
            ),
        )
    }
}

/// Writes the manifest line for the sudo pallet.
pub fn sudo_dependency(cargo_contents: &str, pallet_sudo_branch: Option<&str>) -> (line: String)
    ensures
        line@ == sudo_dependency_of(
            cargo_contents@,
            match pallet_sudo_branch {
                Some(branch) => Some(branch@),
                None => None,
            },
        ),
{
    match pallet_sudo_branch {
        Some(fallback) => {
            let branch = match sniff_branch(cargo_contents) {
                Some(found) => found,
                None => fallback,
            };
            let mut line = String::from_str(
                "pallet-sudo = { git = \"https://github.com/paritytech/polkadot-sdk\", default-features = false, branch = \"",
            );
            line.append(branch);
            line.append("\" }");
            line
        },
        None => String::from_str(
            "pallet-sudo = { path = \"../../../substrate/frame/sudo\", default-features = false }",
        ),
    }
}

/// Adds the line `sudo_crate` to a manifest that does not hold it. `None`
/// says that the manifest is to be left as it is.
pub fn add_dependency(cargo_contents: &str, sudo_crate: &str) -> (edited: Option<String>)
    ensures
        text_of(edited) == with_dependency(cargo_contents@, sudo_crate@),
{
    if has(cargo_contents, sudo_crate) {
        None
    } else {
        let mut entry = String::from_str(sudo_crate);
        entry.append("\n\n[dev-dependencies]");
        Some(replace_all(cargo_contents, "[dev-dependencies]", entry.as_str()))
    }
}

/// Adds the `std` feature of the sudo pallet to a manifest that does not
/// name it. `None` says that the manifest is to be left as it is.
pub fn add_std_feature(cargo_contents: &str) -> (edited: Option<String>)
    ensures
        text_of(edited) == with_std_feature(cargo_contents@),
{
    if has(cargo_contents, "pallet-sudo/std") {
        None
    } else {
        Some(
            replace_all(
                cargo_contents,
                "\"pallet-staking/std\",",
                "\"pallet-staking/std\",\n\t\"pallet-sudo/std\",",
            ),
        )
    }
}

} // verus!
