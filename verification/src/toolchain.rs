//! The Rust toolchain that the crates are compiled with.

use vstd::prelude::*;
use vstd::string::*;
use crate::text;

verus! {

/// What is done about the toolchain.
#[derive(Debug, Clone, Copy, PartialEq, Eq, Structural)]
pub enum ToolchainStep {
    /// List the installed toolchains.
    List,
    /// Install the toolchain.
    Install,
    Ready,
    /// The toolchain cannot be installed.
    Failed,
}

/// Whether one of the lines of a list begins with the name of the toolchain.
pub open spec fn is_listed(list: Seq<char>, toolchain: Seq<char>) -> bool {
    exists|i: int|
        0 <= i < text::lines(list).len() && text::begins_with(
            #[trigger] text::lines(list)[i],
            toolchain,
        )
}

/// Whether a list of the installed toolchains has the toolchain.
pub fn toolchain_listed(list: &str, toolchain: &str) -> (listed: bool)
    ensures
        listed == is_listed(list@, toolchain@),
{
    let lines = text::lines_of(list);
    let ghost all = text::lines(list@);
    let mut i: usize = 0;
    while i < lines.len()
        invariant
            i <= lines@.len(),
            all == text::texts(lines@),
            all == text::lines(list@),
            forall|j: int| 0 <= j < i ==> !text::begins_with(#[trigger] all[j], toolchain@),
        decreases lines@.len() - i,
    {
        assert(all[i as int] == lines@[i as int]@);
        if text::starts_with(lines[i].as_str(), toolchain) {
            assert(text::begins_with(all[i as int], toolchain@));
            return true;
        }
        i += 1;
    }
    false
}

/// What follows when the toolchains were listed: the list counts only where the
/// command succeeded.
pub fn after_list(success: bool, list: &str, toolchain: &str) -> (step: ToolchainStep)
    ensures
        step == if success && is_listed(list@, toolchain@) {
            ToolchainStep::Ready
        } else {
            ToolchainStep::Install
        },
{
    if success && toolchain_listed(list, toolchain) {
        ToolchainStep::Ready
    } else {
        ToolchainStep::Install
    }
}

/// What follows when the toolchain was installed.
pub fn after_install(success: bool) -> (step: ToolchainStep)
    ensures
        step == if success {
            ToolchainStep::Ready
        } else {
            ToolchainStep::Failed
        },
{
    if success {
        ToolchainStep::Ready
    } else {
        ToolchainStep::Failed
    }
}

/// The message of the error for a toolchain that cannot be installed.
pub fn install_error(toolchain: &str) -> (message: String)
    ensures
        message@ == "Failed to install rust toolchain: "@ + toolchain@,
{
    "Failed to install rust toolchain: ".to_owned().concat(toolchain)
}

/// The arguments that list the toolchains.
pub fn list_args() -> (args: Vec<String>)
    ensures
        text::texts(args@) == seq!["toolchain"@, "list"@],
{
    let mut args: Vec<String> = Vec::new();
    args.push("toolchain".to_owned());
    args.push("list".to_owned());
    assert(text::texts(args@) =~= seq!["toolchain"@, "list"@]);
    args
}

/// The arguments that install the toolchain.
pub fn install_args(toolchain: &str) -> (args: Vec<String>)
    ensures
        text::texts(args@) == seq!["toolchain"@, "install"@, toolchain@],
{
    let mut args: Vec<String> = Vec::new();
    args.push("toolchain".to_owned());
    args.push("install".to_owned());
    args.push(toolchain.to_owned());
    assert(text::texts(args@) =~= seq!["toolchain"@, "install"@, toolchain@]);
    args
}

/// A toolchain is listed exactly where the first line begins with its name or
/// the lines after it list it; a list without lines lists none.
pub proof fn law_listed_by_the_beginning_of_a_line(
    first: Seq<char>,
    rest: Seq<char>,
    toolchain: Seq<char>,
)
    requires
        !first.contains('\n'),
        toolchain.len() > 0,
        !toolchain.contains('\r'),
    ensures
        is_listed(first, toolchain) <==> text::begins_with(first, toolchain),
        is_listed(first.push('\n') + rest, toolchain) <==> text::begins_with(first, toolchain)
            || is_listed(rest, toolchain),
        !is_listed(Seq::empty(), toolchain),
{
    text::law_lines(first, rest);
    text::law_lines(Seq::empty(), rest);
    assert(text::lines(Seq::<char>::empty()).len() == 0);
    let bare = if first.len() > 0 && first.last() == '\r' {
        first.take(first.len() - 1)
    } else {
        first
    };
    assert(text::begins_with(bare, toolchain) <==> text::begins_with(first, toolchain)) by {
        let n = toolchain.len() as int;
        if text::begins_with(bare, toolchain) {
            assert(first.take(n) =~= bare.take(n));
        }
        if text::begins_with(first, toolchain) {
            if n == first.len() && bare != first {
                assert(first.take(n) =~= first);
                assert(toolchain[n - 1] == '\r');
                assert(toolchain.contains('\r'));
            } else {
                assert(bare.take(n) =~= first.take(n));
            }
        }
    }
    let all = text::lines(first.push('\n') + rest);
    let tail = text::lines(rest);
    assert(all == seq![bare] + tail);
    if is_listed(rest, toolchain) {
        let i = choose|i: int|
            0 <= i < tail.len() && text::begins_with(#[trigger] tail[i], toolchain);
        assert(all[i + 1] == tail[i]);
    }
    if text::begins_with(first, toolchain) {
        assert(all[0] == bare);
        assert(text::lines(first)[0] == first);
    }
    if is_listed(first.push('\n') + rest, toolchain) {
        let i = choose|i: int| 0 <= i < all.len() && text::begins_with(#[trigger] all[i], toolchain);
        if i > 0 {
            assert(tail[i - 1] == all[i]);
        } else {
            assert(all[0] == bare);
        }
    }
    if is_listed(first, toolchain) {
        let i = choose|i: int|
            0 <= i < text::lines(first).len() && text::begins_with(
                #[trigger] text::lines(first)[i],
                toolchain,
            );
        assert(text::lines(first)[i] == first);
    }
}

} // verus!
