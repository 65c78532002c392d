//! What the doctor and explain commands print.

use crate::diagnostic::catalog::names;
use crate::diagnostic::styles::{paint, painted, Hue, Weight};
use crate::diagnostic::DiagnosticCode;
use crate::driver::toolchain::REQUIRED_LLVM_MAJOR;
use crate::text::{cat, chars_of, decimal, push_decimal, same};
use vstd::prelude::*;

verus! {

/// The mark of a check.
pub open spec fn marker(ok: bool) -> Seq<char> {
    if ok {
        painted(Weight::Bold, Some(Hue::Green), "[ok]"@)
    } else {
        painted(Weight::Bold, Some(Hue::Red), "[x]"@)
    }
}

/// The mark of a check.
pub fn status_marker(ok: bool) -> (r: String)
    ensures
        r@ == marker(ok),
{
    if ok {
        paint(Weight::Bold, Some(Hue::Green), "[ok]")
    } else {
        paint(Weight::Bold, Some(Hue::Red), "[x]")
    }
}

/// A check's result: what is printed, and whether it passed.
#[derive(Debug)]
pub struct Check {
    pub text: String,
    pub ok: bool,
}

impl Check {
    pub open spec fn model(&self) -> (Seq<char>, bool) {
        (self.text@, self.ok)
    }
}

/// The first `n` detected versions.
pub open spec fn detected(versions: Seq<(String, String, u32)>, n: int) -> Seq<char>
    decreases n,
{
    if n <= 0 || n > versions.len() {
        seq![]
    } else {
        detected(versions, n - 1) + "  - "@ + versions[n - 1].0@ + " => "@ + versions[n - 1].1@
            + " (major "@ + decimal(versions[n - 1].2 as nat) + ")\n"@
    }
}

/// The detected versions.
pub fn detected_llvm_versions(versions: &[(String, String, u32)]) -> (r: String)
    ensures
        r@ == (if versions@.len() == 0 {
            "No llvm-config command found on PATH.\n"@
        } else {
            "Detected llvm-config versions:\n"@ + detected(versions@, versions@.len() as int)
        }),
{
    if versions.len() == 0 {
        return "No llvm-config command found on PATH.\n".to_owned();
    }
    let mut out = "Detected llvm-config versions:\n".to_owned();
    let ghost front = out@;
    let mut i: usize = 0;
    assert(out@ =~= front + detected(versions@, 0));
    while i < versions.len()
        invariant
            i <= versions@.len(),
            out@ == front + detected(versions@, i as int),
        decreases versions@.len() - i,
    {
        out.append("  - ");
        out.append(versions[i].0.as_str());
        out.append(" => ");
        out.append(versions[i].1.as_str());
        out.append(" (major ");
        push_decimal(&mut out, versions[i].2 as u64);
        out.append(")\n");
        assert(out@ =~= front + detected(versions@, i + 1));
        i += 1;
    }
    out
}

/// How to install LLVM on a platform.
pub open spec fn llvm_help(target_os: Seq<char>) -> Seq<char> {
    let n = decimal(REQUIRED_LLVM_MAJOR as nat);
    if target_os == "linux"@ {
        "Install LLVM "@ + n + " and clang:\n  Ubuntu/Debian: sudo apt-get install llvm-"@ + n
            + "-dev clang-"@ + n + " libpolly-"@ + n
            + "-dev\n  Arch Linux: sudo pacman -S llvm clang lld\nThen set: LLVM_SYS_221_PREFIX=/usr/lib/llvm-"@
            + n + "\n"@
    } else if target_os == "macos"@ {
        "Install LLVM "@ + n + " and clang via Homebrew:\n  brew install llvm@"@ + n
            + "\nThen set: LLVM_SYS_221_PREFIX=$(brew --prefix llvm@"@ + n + ")\n"@
    } else if target_os == "windows"@ {
        "Install LLVM "@ + n
            + " and clang (for example via Chocolatey):\n  choco install llvm --version=22.1.6\nThen set LLVM_SYS_221_PREFIX to the LLVM install directory.\n"@
    } else {
        seq![]
    }
}

fn push_major(out: &mut String)
    ensures
        final(out)@ == old(out)@ + decimal(REQUIRED_LLVM_MAJOR as nat),
{
    push_decimal(out, REQUIRED_LLVM_MAJOR as u64);
}

/// How to install LLVM on a platform.
pub fn llvm_install_help(target_os: &str) -> (r: String)
    ensures
        r@ == llvm_help(target_os@),
{
    let mut out = String::new();
    proof {
        reveal_strlit("");
        assert(out@ =~= seq![]);
    }
    if same(target_os, "linux") {
        let mut out = "Install LLVM ".to_owned();
        push_major(&mut out);
        out.append(" and clang:\n  Ubuntu/Debian: sudo apt-get install llvm-");
        push_major(&mut out);
        out.append("-dev clang-");
        push_major(&mut out);
        out.append(" libpolly-");
        push_major(&mut out);
        out.append(
            "-dev\n  Arch Linux: sudo pacman -S llvm clang lld\nThen set: LLVM_SYS_221_PREFIX=/usr/lib/llvm-",
        );
        push_major(&mut out);
        out.append("\n");
        return out;
    }
    if same(target_os, "macos") {
        let mut out = "Install LLVM ".to_owned();
        push_major(&mut out);
        out.append(" and clang via Homebrew:\n  brew install llvm@");
        push_major(&mut out);
        out.append("\nThen set: LLVM_SYS_221_PREFIX=$(brew --prefix llvm@");
        push_major(&mut out);
        out.append(")\n");
        return out;
    }
    if same(target_os, "windows") {
        let mut out = "Install LLVM ".to_owned();
        push_major(&mut out);
        out.append(
            " and clang (for example via Chocolatey):\n  choco install llvm --version=22.1.6\nThen set LLVM_SYS_221_PREFIX to the LLVM install directory.\n",
        );
        return out;
    }
    out
}

/// How to install a C driver on a platform.
pub fn linker_install_help(target_os: &str) -> (r: &'static str)
    ensures
        r == (if target_os@ == "linux"@ {
            "Install a C toolchain:\n  Debian/Ubuntu: sudo apt-get install clang\n  Arch Linux:    sudo pacman -S clang\nAny recent clang or gcc works; the version does not need to match.\n"
        } else if target_os@ == "macos"@ {
            "Install the Xcode command line tools:\n  xcode-select --install\n"
        } else if target_os@ == "windows"@ {
            "Install LLVM (which provides clang), for example via Chocolatey:\n  choco install llvm\n"
        } else {
            ""
        }),
{
    if same(target_os, "linux") {
        "Install a C toolchain:\n  Debian/Ubuntu: sudo apt-get install clang\n  Arch Linux:    sudo pacman -S clang\nAny recent clang or gcc works; the version does not need to match.\n"
    } else if same(target_os, "macos") {
        "Install the Xcode command line tools:\n  xcode-select --install\n"
    } else if same(target_os, "windows") {
        "Install LLVM (which provides clang), for example via Chocolatey:\n  choco install llvm\n"
    } else {
        ""
    }
}

/// The check of LLVM. Working on the compiler needs the required version;
/// using it does not.
pub open spec fn llvm_check(
    dev_mode: bool,
    selected: Option<(String, String, u32)>,
    target_os: Seq<char>,
) -> (Seq<char>, bool) {
    let n = decimal(REQUIRED_LLVM_MAJOR as nat);
    match selected {
        Some((tool, version, _)) => (
            if dev_mode {
                marker(true) + " LLVM development requirement satisfied with "@ + version@ + " ("@
                    + tool@ + ").\n"@
            } else {
                marker(true) + " Using LLVM "@ + version@ + " from "@ + tool@ + ".\n"@
            },
            true,
        ),
        None => if dev_mode {
            (
                marker(false) + " Contributor mode requires LLVM "@ + n + ".x (llvm-config-"@ + n
                    + ").\n"@ + llvm_help(target_os),
                false,
            )
        } else {
            (
                marker(true) + " LLVM "@ + n
                    + " was not detected. This is okay for prebuilt installs, but source builds need LLVM "@
                    + n + ".\n"@,
                true,
            )
        },
    }
}

/// The check of LLVM.
pub fn validate_llvm_for_doctor(
    dev_mode: bool,
    selected_dev_llvm: Option<(String, String, u32)>,
    target_os: &str,
) -> (r: Check)
    ensures
        r.model() == llvm_check(dev_mode, selected_dev_llvm, target_os@),
{
    match selected_dev_llvm {
        Some((tool, version, _)) => {
            let mut text = status_marker(true);
            if dev_mode {
                text.append(" LLVM development requirement satisfied with ");
                text.append(version.as_str());
                text.append(" (");
                text.append(tool.as_str());
                text.append(").\n");
            } else {
                text.append(" Using LLVM ");
                text.append(version.as_str());
                text.append(" from ");
                text.append(tool.as_str());
                text.append(".\n");
            }
            Check { text, ok: true }
        },
        None => {
            if dev_mode {
                let mut text = status_marker(false);
                text.append(" Contributor mode requires LLVM ");
                push_major(&mut text);
                text.append(".x (llvm-config-");
                push_major(&mut text);
                text.append(").\n");
                text.append(llvm_install_help(target_os).as_str());
                Check { text, ok: false }
            } else {
                let mut text = status_marker(true);
                text.append(" LLVM ");
                push_major(&mut text);
                text.append(
                    " was not detected. This is okay for prebuilt installs, but source builds need LLVM ",
                );
                push_major(&mut text);
                text.append(".\n");
                Check { text, ok: true }
            }
        },
    }
}

/// The check of the C driver. Its version is told, and does not matter.
pub fn report_clang_for_doctor(linker: Option<&str>, major: Option<u32>, target_os: &str) -> (r: Check)
    ensures
        r.ok == (linker is Some),
        linker matches Some(l) ==> r.text@ == marker(true) + " Linker driver: "@ + l@ + (
        match major {
            Some(m) => " (version "@ + decimal(m as nat) + ").\n"@,
            None => ".\n"@,
        }),
        linker is None ==> r.text@ == marker(false)
            + " No C compiler found to link programs with.\n"@ + (if target_os@ == "linux"@ {
            "Install a C toolchain:\n  Debian/Ubuntu: sudo apt-get install clang\n  Arch Linux:    sudo pacman -S clang\nAny recent clang or gcc works; the version does not need to match.\n"@
        } else if target_os@ == "macos"@ {
            "Install the Xcode command line tools:\n  xcode-select --install\n"@
        } else if target_os@ == "windows"@ {
            "Install LLVM (which provides clang), for example via Chocolatey:\n  choco install llvm\n"@
        } else {
            ""@
        }),
{
    match linker {
        None => {
            let mut text = status_marker(false);
            text.append(" No C compiler found to link programs with.\n");
            text.append(linker_install_help(target_os));
            Check { text, ok: false }
        },
        Some(l) => {
            let mut text = status_marker(true);
            text.append(" Linker driver: ");
            text.append(l);
            let ghost front = text@;
            match major {
                Some(m) => {
                    text.append(" (version ");
                    push_decimal(&mut text, m as u64);
                    text.append(").\n");
                    assert(text@ =~= front + (" (version "@ + decimal(m as nat) + ").\n"@));
                },
                None => {
                    text.append(".\n");
                },
            }
            Check { text, ok: true }
        },
    }
}

/// The check of the runtime.
pub fn report_runtime_for_doctor(runtime_ok: bool) -> (r: Check)
    ensures
        r.model() == (
            marker(runtime_ok) + (if runtime_ok {
                " Mux runtime is available.\n"@
            } else {
                " Mux runtime is not available.\n"@
            }),
            runtime_ok,
        ),
{
    let mut text = status_marker(runtime_ok);
    if runtime_ok {
        text.append(" Mux runtime is available.\n");
    } else {
        text.append(" Mux runtime is not available.\n");
    }
    Check { text, ok: runtime_ok }
}

/// The doctor's last line.
pub fn doctor_verdict(ok: bool) -> (r: Check)
    ensures
        r.model() == (
            if ok {
                painted(
                    Weight::Bold,
                    Some(Hue::Green),
                    "Your system is ready to use the Mux compiler!"@,
                ) + "\n"@
            } else {
                painted(
                    Weight::Bold,
                    Some(Hue::Red),
                    "Please install the missing dependencies and try again."@,
                ) + "\n"@
            },
            ok,
        ),
{
    let mut text = if ok {
        paint(
            Weight::Bold,
            Some(Hue::Green),
            "Your system is ready to use the Mux compiler!",
        )
    } else {
        paint(
            Weight::Bold,
            Some(Hue::Red),
            "Please install the missing dependencies and try again.",
        )
    };
    text.append("\n");
    Check { text, ok }
}

/// A letter as its capital.
pub open spec fn capital(c: char) -> char {
    if 'a' <= c <= 'z' {
        ((c as u8 - 32) as u8) as char
    } else {
        c
    }
}

/// A text in capitals.
pub open spec fn capitals(s: Seq<char>) -> Seq<char> {
    s.map_values(|c: char| capital(c))
}

fn upper(text: &str) -> (r: String)
    ensures
        r@ == capitals(text@),
{
    let chars = chars_of(text);
    let mut out = String::new();
    let mut i: usize = 0;
    proof {
        reveal_strlit("");
        assert(out@ =~= capitals(text@).take(0));
    }
    while i < chars.len()
        invariant
            i <= chars@.len(),
            chars@ == text@,
            out@ == capitals(text@).take(i as int),
        decreases chars@.len() - i,
    {
        let c = chars[i];
        if 'a' <= c && c <= 'z' {
            out.push((c as u8 - 32) as char);
        } else {
            out.push(c);
        }
        assert(out@ =~= capitals(text@).take(i + 1));
        i += 1;
    }
    assert(capitals(text@).take(i as int) =~= capitals(text@));
    out
}

/// The explanation of a code.
pub open spec fn explanation(code: DiagnosticCode) -> Seq<char> {
    let (title, trigger, example, why, fix) = code.reference_texts();
    code.as_str()@ + ": "@ + title@ + "\n\nWhen: "@ + trigger@ + "\n"@ + (if example@.len() > 0 {
        "Example:\n"@ + example@ + "\n"@
    } else {
        seq![]
    }) + "Why: "@ + why@ + "\nFix: "@ + fix@
        + "\nDocs: https://mux-lang.dev/docs/reference/diagnostics/\n"@
}

/// The explanation of the code that a text names, whatever its case.
pub fn explain_diagnostic(value: &str) -> (r: Result<String, String>)
    ensures
        match r {
            Ok(text) => exists|code: DiagnosticCode| #[trigger]
                names(capitals(value@), Some(code)) && text@ == explanation(code),
            Err(e) => names(capitals(value@), None) && e@ == "Unknown diagnostic code '"@ + value@
                + "'. Use a code such as E0302 or W0300."@,
        },
{
    let code = match DiagnosticCode::parse(upper(value).as_str()) {
        Some(code) => code,
        None => {
            let mut out = cat("Unknown diagnostic code '", value);
            out.append("'. Use a code such as E0302 or W0300.");
            return Err(out);
        },
    };
    assert(names(capitals(value@), Some(code)));
    let info = code.info();
    let mut out = cat(code.as_str(), ": ");
    out.append(info.title);
    out.append("\n\nWhen: ");
    out.append(info.trigger);
    out.append("\n");
    let ghost front = out@;
    if !info.example.is_empty() {
        out.append("Example:\n");
        out.append(info.example);
        out.append("\n");
        assert(out@ =~= front + ("Example:\n"@ + info.example@ + "\n"@));
    } else {
        assert(out@ =~= front + seq![]);
    }
    out.append("Why: ");
    out.append(info.explanation);
    out.append("\nFix: ");
    out.append(info.fix);
    out.append("\nDocs: https://mux-lang.dev/docs/reference/diagnostics/\n");
    Ok(out)
}

} // verus!
