//! Editing the source of a relay chain runtime, and the source that sets up
//! the genesis of its chain, so that the runtime holds the sudo pallet.

use crate::search::{
    contains, find_in, first_row_ending, first_row_with, has, joined, line_spans, lines,
    replace_all, replaced, row_ending, row_with, span_texts, spans_within, text_of, to_chars, Span,
};
use vstd::prelude::*;

verus! {

/// The row that enters the sudo pallet in the runtime.
pub open spec fn runtime_entry() -> Seq<char> {
    "\t\tSudo: pallet_sudo = 255,"@
}

/// The source with the sudo pallet among the pallets of the runtime. The
/// row of the pallet goes before the first row that ends with a tab and a
/// closing brace, looked for from the first row on that opens
/// `construct_runtime!`. The rows of the result are joined by line feeds,
/// with none after the last. `None` where the source names the pallet
/// already, or where one of the two rows is not found.
pub open spec fn with_runtime_entry(source: Seq<char>) -> Option<Seq<char>> {
    let rows = lines(source);
    if contains(source, "Sudo: pallet_sudo"@) {
        None
    } else {
        match first_row_with(rows, "construct_runtime! {"@) {
            Some(index) => match first_row_ending(rows.skip(index), "\t}"@) {
                Some(pos) => Some(joined(rows.insert(index + pos, runtime_entry()), "\n"@)),
                None => None,
            },
            None => None,
        }
    }
}

/// The source with the configuration of the sudo pallet at its end; `None`
/// where the source holds one already.
pub open spec fn with_config_impl(source: Seq<char>) -> Option<Seq<char>> {
    if contains(source, "impl pallet_sudo::Config for Runtime"@) {
        None
    } else {
        Some(
            source
                + "\n\nimpl pallet_sudo::Config for Runtime {\n\ttype RuntimeEvent = RuntimeEvent;\n\ttype RuntimeCall = RuntimeCall;\n\ttype WeightInfo = ();\n}\n"@,
        )
    }
}

/// What names the sudo configuration of the runtime `name` in a genesis
/// configuration.
pub open spec fn sudo_config_key(name: Seq<char>) -> Seq<char> {
    "sudo: "@ + name + "::SudoConfig"@
}

/// What opens the genesis configuration of type `kind` of the runtime
/// `name`.
pub open spec fn genesis_open(name: Seq<char>, kind: Seq<char>) -> Seq<char> {
    "\t"@ + name + "::"@ + kind + " {"@
}

/// The opening of a genesis configuration, followed by a sudo
/// configuration whose key is the account of Alice.
pub open spec fn genesis_with_sudo(name: Seq<char>, kind: Seq<char>) -> Seq<char> {
    genesis_open(name, kind) + "\n    \t\tsudo: "@ + name
        + "::SudoConfig {\n    \t\t\tkey: Some(get_account_id_from_seed::<sr25519::Public>(\"Alice\")),\n    \t\t},"@
}

/// The source in which each `from` has become `to`, unless the source
/// holds `key`.
pub open spec fn replaced_unless(
    source: Seq<char>,
    key: Seq<char>,
    from: Seq<char>,
    to: Seq<char>,
) -> Seq<char> {
    if contains(source, key) {
        source
    } else {
        replaced(source, from, to)
    }
}

/// The genesis source with a sudo configuration in each genesis
/// configuration of the runtime `name`: in those of type
/// `RuntimeGenesisConfig`, and, if after that the source still names no
/// sudo configuration, in those of type `GenesisConfig`. `None` where the
/// source names a sudo configuration from the start.
pub open spec fn with_genesis_config(source: Seq<char>, name: Seq<char>) -> Option<Seq<char>> {
    if contains(source, sudo_config_key(name)) {
        None
    } else {
        Some(
            replaced_unless(
                replaced(
                    source,
                    genesis_open(name, "RuntimeGenesisConfig"@),
                    genesis_with_sudo(name, "RuntimeGenesisConfig"@),
                ),
                sudo_config_key(name),
                genesis_open(name, "GenesisConfig"@),
                genesis_with_sudo(name, "GenesisConfig"@),
            ),
        )
    }
}

proof fn lemma_joined_next(rows: Seq<Seq<char>>, separator: Seq<char>, k: int)
    requires
        0 <= k < rows.len(),
    ensures
        joined(rows.take(k + 1), separator) == if k == 0 {
            rows[0]
        } else {
            joined(rows.take(k), separator) + separator + rows[k]
        },
{
    assert(rows.take(k + 1).drop_last() =~= rows.take(k));
    assert(rows.take(k + 1).last() == rows[k]);
}

/// Enters the sudo pallet among the pallets of a runtime that does not name
/// it. `None` says that the source is to be left as it is.
pub fn add_runtime_entry(lib_contents: &str) -> (edited: Option<String>)
    ensures
        text_of(edited) == with_runtime_entry(lib_contents@),
{
    if has(lib_contents, "Sudo: pallet_sudo") {
        return None;
    }
    let text = to_chars(lib_contents);
    let spans = line_spans(&text);
    let opening = to_chars("construct_runtime! {");
    let closing = to_chars("\t}");
    let ghost rows = lines(lib_contents@);
    assert(rows.skip(0) =~= rows);
    let index: usize = match row_with(&text, &spans, 0, &opening) {
        Some(index) => index,
        None => {
            return None;
        },
    };
    let at: usize = match row_ending(&text, &spans, index, &closing) {
        Some(at) => at,
        None => {
            return None;
        },
    };
    let ghost wanted = rows.insert(at as int, runtime_entry());
    let mut result = String::new();
    let mut k: usize = 0;
    assert(joined(wanted.take(0), "\n"@) =~= result@);
    while k < spans.len()
        invariant
            k <= spans.len(),
            at < spans.len(),
            text@ == lib_contents@,
            spans_within(spans@, text@.len()),
            rows == span_texts(text@, spans@),
            wanted == rows.insert(at as int, runtime_entry()),
            result@ == joined(
                wanted.take(
                    if k <= at {
                        k as int
                    } else {
                        k + 1
                    },
                ),
                "\n"@,
            ),
        decreases spans.len() - k,
    {
        if k == at {
            proof {
                lemma_joined_next(wanted, "\n"@, k as int);
            }
            if k > 0 {
                result.append("\n");
            }
            result.append("\t\tSudo: pallet_sudo = 255,");
        }
        proof {
            lemma_joined_next(
                wanted,
                "\n"@,
                if k < at {
                    k as int
                } else {
                    k + 1
                },
            );
        }
        if k > 0 || k == at {
            result.append("\n");
        }
        let span: Span = spans[k];
        result.append(lib_contents.substring_char(span.start, span.stop));
        k += 1;
    }
    assert(wanted.take(k + 1) =~= wanted);
    Some(result)
}

/// Appends the configuration of the sudo pallet to a runtime that holds
/// none. `None` says that the source is to be left as it is.
pub fn add_config_impl(lib_contents: &str) -> (edited: Option<String>)
    ensures
        text_of(edited) == with_config_impl(lib_contents@),
{
    if has(lib_contents, "impl pallet_sudo::Config for Runtime") {
        None
    } else {
        let mut result = String::from_str(lib_contents);
        result.append(
            "\n\nimpl pallet_sudo::Config for Runtime {\n\ttype RuntimeEvent = RuntimeEvent;\n\ttype RuntimeCall = RuntimeCall;\n\ttype WeightInfo = ();\n}\n",
        );
        Some(result)
    }
}

fn genesis_opening(runtime_name: &str, kind: &str) -> (text: String)
    ensures
        text@ == genesis_open(runtime_name@, kind@),
{
    let mut text = String::from_str("\t");
    text.append(runtime_name);
    text.append("::");
    text.append(kind);
    text.append(" {");
    text
}

fn genesis_sudo(runtime_name: &str, kind: &str) -> (text: String)
    ensures
        text@ == genesis_with_sudo(runtime_name@, kind@),
{
    let mut text = genesis_opening(runtime_name, kind);
    text.append("\n    \t\tsudo: ");
    text.append(runtime_name);
    text.append(
        "::SudoConfig {\n    \t\t\tkey: Some(get_account_id_from_seed::<sr25519::Public>(\"Alice\")),\n    \t\t},",
    );
    text
}

/// Gives the genesis configurations of the runtime `runtime_name` a sudo
/// configuration, in a genesis source that names none. `None` says that the
/// source is to be left as it is.
pub fn add_genesis_config(chain_spec_contents: &str, runtime_name: &str) -> (edited: Option<
    String,
>)
    ensures
        text_of(edited) == with_genesis_config(chain_spec_contents@, runtime_name@),
{
    let mut key = String::from_str("sudo: ");
    key.append(runtime_name);
    key.append("::SudoConfig");
    if has(chain_spec_contents, key.as_str()) {
        return None;
    }
    let first = replace_all(
        chain_spec_contents,
        genesis_opening(runtime_name, "RuntimeGenesisConfig").as_str(),
        genesis_sudo(runtime_name, "RuntimeGenesisConfig").as_str(),
    );
    if has(first.as_str(), key.as_str()) {
        Some(first)
    } else {
        Some(
            replace_all(
                first.as_str(),
                genesis_opening(runtime_name, "GenesisConfig").as_str(),
                genesis_sudo(runtime_name, "GenesisConfig").as_str(),
            ),
        )
    }
}

} // verus!
