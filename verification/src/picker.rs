use vstd::prelude::*;
use vstd::string::StringExecFns;

use crate::text::string_from;

verus! {

/// The interactive fuzzy finders that the listing can be piped to.
#[derive(Debug, Clone, Copy, PartialEq, Eq, Structural)]
pub enum Picker {
    Fzf,
    Sk,
}

/// The preview: read `file:start:end:col` from field 2 and show exactly the
/// symbol's lines, with `bat` when it is installed, else with `sed`.
pub open spec fn preview_command(has_bat: bool) -> Seq<char> {
    if has_bat {
        "IFS=: read -r file start end col <<< {2}; bat --color=always --style=numbers --highlight-line=\"$start\" --line-range=\"$start:$end\" \"$file\""@
    } else {
        "IFS=: read -r file start end col <<< {2}; sed -n \"${start},${end}p\" \"$file\""@
    }
}

/// The Enter binding: open the editor at the symbol's line (fzf replaces
/// itself with the editor, sk, which has no `become`, runs it).
pub open spec fn enter_binding(picker: Picker, editor: Seq<char>) -> Seq<char> {
    (match picker {
        Picker::Fzf => "--bind=enter:become("@,
        Picker::Sk => "--bind=enter:execute("@,
    }) + "IFS=: read -r file start end col <<< {2}; "@ + editor + " +$start \"$file\")"@
}

/// The arguments that the finder is started with.
pub open spec fn picker_args_spec(picker: Picker, has_bat: bool, editor: Seq<char>) -> Seq<Seq<char>> {
    seq![
        "--ansi"@,
        "--delimiter=\t"@,
        "--with-nth=1,3"@,
        "--preview="@ + preview_command(has_bat),
        "--preview-window=right:60%:wrap"@,
        enter_binding(picker, editor),
        "--bind=ctrl-/:toggle-preview"@,
    ]
}

impl Picker {
    /// The finder's executable.
    pub fn bin(self) -> (r: &'static str)
        ensures
            r@ == (match self {
                Picker::Fzf => "fzf"@,
                Picker::Sk => "sk"@,
            }),
    {
        match self {
            Picker::Fzf => "fzf",
            Picker::Sk => "sk",
        }
    }
}

/// The arguments to start the finder with, given whether `bat` is
/// available and the editor to open.
pub fn picker_args(picker: Picker, has_bat: bool, editor: &str) -> (r: Vec<String>)
    ensures
        r@.map_values(|s: String| s@) == picker_args_spec(picker, has_bat, editor@),
{
    let preview = if has_bat {
        "IFS=: read -r file start end col <<< {2}; bat --color=always --style=numbers --highlight-line=\"$start\" --line-range=\"$start:$end\" \"$file\""
    } else {
        "IFS=: read -r file start end col <<< {2}; sed -n \"${start},${end}p\" \"$file\""
    };
    let mut preview_arg = string_from("--preview=");
    preview_arg.append(preview);
    let mut enter_arg = match picker {
        Picker::Fzf => string_from("--bind=enter:become("),
        Picker::Sk => string_from("--bind=enter:execute("),
    };
    enter_arg.append("IFS=: read -r file start end col <<< {2}; ");
    enter_arg.append(editor);
    enter_arg.append(" +$start \"$file\")");
    let r = vec![
        string_from("--ansi"),
        string_from("--delimiter=\t"),
        string_from("--with-nth=1,3"),
        preview_arg,
        string_from("--preview-window=right:60%:wrap"),
        enter_arg,
        string_from("--bind=ctrl-/:toggle-preview"),
    ];
    assert(r@.map_values(|s: String| s@) =~= picker_args_spec(picker, has_bat, editor@));
    r
}

/// What the finder's exit status asks of the program: `Some(code)` to exit
/// with that code, `None` to go on. Exit code 130 (Esc or Ctrl-C) is
/// normal; a failure without a code exits with 1.
pub fn exit_code_after_picker(success: bool, code: Option<i32>) -> (r: Option<i32>)
    ensures
        r == (if !success && code != Some(130i32) {
            Some(
                match code {
                    Some(c) => c,
                    None => 1i32,
                },
            )
        } else {
            None
        }),
{
    if !success && code != Some(130) {
        Some(
            match code {
                Some(c) => c,
                None => 1,
            },
        )
    } else {
        None
    }
}

} // verus!
