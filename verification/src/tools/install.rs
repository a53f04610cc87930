//! Installing packages with the host's package manager.
//!
//! The package's name goes into a shell command, so it may hold only letters,
//! digits and a few signs. Nothing is installed unless someone says yes.
//! Where the command begins with `sudo` and `pkexec` is at hand, `pkexec`
//! takes its place, which asks for the password in a window.
use vstd::prelude::*;

use super::{outcome_of, text_arg, Answered, ToolError, ToolResult, ToolResultView};
use crate::json::{Json, JsonView, ObjectBuilder};
use crate::knowledge::DistroKnowledge;
use crate::search::{
    contains, occurs_at, replace_all, replaced, replacing_goes_on_behind, replacing_keeps_head,
};
use crate::text::{
    chars_of, concat2, concat3, concat4, concat5, has_prefix, is_white_space, quote, quoted,
    strip_prefix,
};

verus! {

/// Installs a package.
#[derive(Debug, Default)]
pub struct InstallPackageTool;

/// Whether a character may stand in a package's name.
pub open spec fn is_package_char(c: char) -> bool {
    ||| 'a' <= c <= 'z'
    ||| 'A' <= c <= 'Z'
    ||| '0' <= c <= '9'
    ||| c == '.'
    ||| c == '_'
    ||| c == '+'
    ||| c == '-'
}

/// Whether `s` may be a package's name: letters, digits and `._+-`, and no
/// `-` in front, where it would make an option of it.
pub open spec fn valid_package_name(s: Seq<char>) -> bool {
    &&& s.len() > 0
    &&& s[0] != '-'
    &&& forall|i: int| 0 <= i < s.len() ==> is_package_char(#[trigger] s[i])
}

/// Whether `s` may be a package's name.
pub fn is_valid_package_name(s: &str) -> (r: bool)
    ensures
        r == valid_package_name(s@),
{
    let v = chars_of(s);
    if v.len() == 0 || v[0] == '-' {
        return false;
    }
    let mut i: usize = 0;
    while i < v.len()
        invariant
            i <= v@.len(),
            v@ == s@,
            forall|j: int| 0 <= j < i ==> is_package_char(#[trigger] v@[j]),
        decreases v@.len() - i,
    {
        let c = v[i];
        let fits = ('a' <= c && c <= 'z') || ('A' <= c && c <= 'Z') || ('0' <= c && c <= '9') || c
            == '.' || c == '_' || c == '+' || c == '-';
        if !fits {
            assert(!is_package_char(s@[i as int]));
            return false;
        }
        i += 1;
    }
    true
}

/// Whether a character means something to a shell.
pub open spec fn is_shell_char(c: char) -> bool {
    ||| is_white_space(c)
    ||| c == ';'
    ||| c == '&'
    ||| c == '|'
    ||| c == '<'
    ||| c == '>'
    ||| c == '('
    ||| c == ')'
    ||| c == '{'
    ||| c == '}'
    ||| c == '['
    ||| c == ']'
    ||| c == '$'
    ||| c == '`'
    ||| c == '\\'
    ||| c == '"'
    ||| c == '\''
    ||| c == '*'
    ||| c == '?'
    ||| c == '!'
    ||| c == '#'
    ||| c == '~'
    ||| c == '='
    ||| c == '%'
    ||| c == '/'
}

/// A name that is accepted holds nothing that means something to a shell,
/// and is no option.
pub proof fn valid_name_is_one_word(s: Seq<char>)
    requires
        valid_package_name(s),
    ensures
        s.len() > 0,
        !has_prefix(s, "-"@),
        forall|i: int| 0 <= i < s.len() ==> !is_shell_char(#[trigger] s[i]),
{
    reveal_strlit("-");
    if has_prefix(s, "-"@) {
        assert(s.take(1)[0] == s[0]);
    }
    assert forall|i: int| 0 <= i < s.len() implies !is_shell_char(#[trigger] s[i]) by {
        assert(is_package_char(s[i]));
    }
}

/// The command that a template stands for, and whether it asks through
/// `pkexec`.
pub open spec fn command_for(template: Seq<char>, pkg: Seq<char>, pkexec: bool) -> (
    Seq<char>,
    bool,
) {
    if pkexec && has_prefix(template, "sudo "@) {
        ("pkexec "@ + replaced(template.skip(5), "{pkg}"@, pkg), true)
    } else {
        (replaced(template, "{pkg}"@, pkg), false)
    }
}

/// The command that `template` stands for: `{pkg}` is the package's name,
/// and `pkexec`, where it is available, takes the place of the `sudo` that
/// the template begins with.
/// Also says whether it did.
pub fn render_command(template: &str, pkg: &str, pkexec_available: bool) -> (r: (String, bool))
    ensures
        (r.0@, r.1) == command_for(template@, pkg@, pkexec_available),
{
    proof {
        reveal_strlit("{pkg}");
        reveal_strlit("sudo ");
    }
    if pkexec_available {
        if let Some(rest) = strip_prefix(template, "sudo ") {
            return (concat2("pkexec ", &replace_all(&rest, "{pkg}", pkg)), true);
        }
    }
    (replace_all(template, "{pkg}", pkg), false)
}

/// Without `pkexec`, or where the template does not begin with `sudo`, the
/// command is the template with the name in it. Otherwise it is that with
/// `pkexec` in place of `sudo`, and nothing else changed.
pub proof fn template_is_kept(template: Seq<char>, pkg: Seq<char>, pkexec: bool)
    ensures
        !pkexec || !has_prefix(template, "sudo "@) ==> command_for(template, pkg, pkexec) == (
            replaced(template, "{pkg}"@, pkg),
            false,
        ),
        pkexec && has_prefix(template, "sudo "@) ==> {
            let (command, asks) = command_for(template, pkg, pkexec);
            &&& asks
            &&& has_prefix(command, "pkexec "@)
            &&& "sudo "@ + command.skip(7) == replaced(template, "{pkg}"@, pkg)
        },
{
    reveal_strlit("sudo ");
    reveal_strlit("pkexec ");
    reveal_strlit("{pkg}");
    if pkexec && has_prefix(template, "sudo "@) {
        let rest = template.skip(5);
        let command = "pkexec "@ + replaced(rest, "{pkg}"@, pkg);
        assert(command.take(7) == "pkexec "@);
        assert(command.skip(7) == replaced(rest, "{pkg}"@, pkg));
        assert(template == "sudo "@ + rest);
        replacing_keeps_head("sudo "@, rest, "{pkg}"@, pkg);
    }
}

/// The question that is asked before a package is installed.
pub open spec fn install_question(pkg: Seq<char>, command: Seq<char>) -> Seq<char> {
    "tux: install `"@ + pkg + "` with: "@ + command + "\nproceed? [y/N]: "@
}

/// What is reported where the user declined.
pub open spec fn install_declined(pkg: Seq<char>, command: Seq<char>) -> ToolResultView {
    ToolResultView {
        tool: "install_package"@,
        summary: "install of `"@ + pkg + "` cancelled"@,
        data: JsonView::Object(
            map![
                "cancelled"@ => JsonView::Bool(true),
                "package"@ => JsonView::Text(pkg),
                "command"@ => JsonView::Text(command),
            ],
        ),
    }
}

/// What is reported of a package that was installed.
pub open spec fn install_report(pkg: Seq<char>, command: Seq<char>, pkexec: bool) -> ToolResultView {
    ToolResultView {
        tool: "install_package"@,
        summary: "installed `"@ + pkg + "` via "@ + (if pkexec {
            "pkexec"@
        } else {
            "sudo"@
        }),
        data: JsonView::Object(
            map![
                "package"@ => JsonView::Text(pkg),
                "command"@ => JsonView::Text(command),
                "used_pkexec"@ => JsonView::Bool(pkexec),
            ],
        ),
    }
}

/// What to install, and how.
#[derive(Debug)]
pub struct InstallPlan {
    pub package: String,
    pub command: String,
    pub used_pkexec: bool,
}

/// What is said where nothing is known of the distribution.
pub const NO_KNOWLEDGE: &'static str = "no distro knowledge available — run `tux init` to populate system.json, or add an entry for this distro to tux-core/src/knowledge.rs";

/// Why a call installs nothing, if there is a reason: no name, a name that
/// is none, or nothing known of the distribution.
pub open spec fn install_complaint(args: JsonView, known: bool) -> Option<Seq<char>> {
    match args.text_at("package"@) {
        None => Some("install_package requires {\"package\":\"name\"}"@),
        Some(pkg) => if !valid_package_name(pkg) {
            Some(
                "invalid package name "@ + quoted(pkg)
                    + " (allowed: letters, digits, and . _ + -)"@,
            )
        } else if !known {
            Some(NO_KNOWLEDGE@)
        } else {
            None
        },
    }
}

/// What the model is told about installing packages.
pub const INSTALL_DESCRIPTION: &'static str = "Install a package using the host's package manager. Args: {\"package\": \"name\"}. Asks the user for confirmation on the terminal before doing anything.";

impl InstallPackageTool {
    /// The name the model calls it by.
    pub fn name(&self) -> (r: &'static str)
        ensures
            r@ == "install_package"@,
    {
        "install_package"
    }

    /// What the model is told about it.
    pub fn description(&self) -> (r: &'static str)
        ensures
            r@ == INSTALL_DESCRIPTION@,
    {
        INSTALL_DESCRIPTION
    }

    /// What a call asks to install, and the command that does it.
    pub fn plan(
        &self,
        args: &Json,
        knowledge: &Option<DistroKnowledge>,
        pkexec_available: bool,
    ) -> (r: Result<InstallPlan, ToolError>)
        ensures
            match install_complaint(args@, knowledge is Some) {
                None => {
                    &&& r matches Ok(plan)
                    &&& args@.text_at("package"@) == Some(plan.package@)
                    &&& (plan.command@, plan.used_pkexec) == command_for(
                        knowledge->0.install_cmd@,
                        plan.package@,
                        pkexec_available,
                    )
                },
                Some(m) => r matches Err(e) && e.message@ == m,
            },
    {
        let pkg = match text_arg(
            args,
            "package",
            "install_package requires {\"package\":\"name\"}",
        ) {
            Ok(s) => s,
            Err(e) => {
                return Err(e);
            },
        };
        if !is_valid_package_name(pkg) {
            return Err(
                ToolError::new(
                    concat3(
                        "invalid package name ",
                        &quote(pkg),
                        " (allowed: letters, digits, and . _ + -)",
                    ),
                ),
            );
        }
        match knowledge {
            Some(k) => {
                let (command, used_pkexec) = render_command(
                    &k.install_cmd,
                    pkg,
                    pkexec_available,
                );
                Ok(InstallPlan { package: pkg.to_string(), command, used_pkexec })
            },
            None => Err(ToolError::new(NO_KNOWLEDGE.to_string())),
        }
    }

    /// What a command that could not be started is reported as.
    pub fn not_started(&self, error: &str) -> (r: ToolError)
        ensures
            r.message@ == "spawn install command: "@ + error@,
    {
        ToolError::new(concat2("spawn install command: ", error))
    }
}

/// A package that the user agreed to have installed.
#[derive(Debug)]
pub struct InstallApproved {
    plan: InstallPlan,
}

impl InstallPlan {
    /// The question to ask before anything is done.
    pub fn question(&self) -> (r: String)
        ensures
            r@ == install_question(self.package@, self.command@),
    {
        concat5(
            "tux: install `",
            &self.package,
            "` with: ",
            &self.command,
            "\nproceed? [y/N]: ",
        )
    }

    /// What follows from the answer. The command is run only after a yes.
    pub fn on_answer(self, answer: Result<bool, String>) -> (r: Answered<InstallApproved>)
        ensures
            match answer {
                Ok(true) => r matches Answered::Go(a) && a.plan() == self,
                Ok(false) => r matches Answered::Declined(report) && report@ == install_declined(
                    self.package@,
                    self.command@,
                ),
                Err(m) => r matches Answered::Failed(e) && e.message@ == m@,
            },
    {
        match answer {
            Ok(yes) => if yes {
                Answered::Go(InstallApproved { plan: self })
            } else {
                let b = ObjectBuilder::new().with("cancelled", Json::Bool(true));
                let b = b.with("package", Json::text(&self.package));
                let data = b.with("command", Json::text(&self.command)).build();
                Answered::Declined(
                    ToolResult {
                        tool: "install_package".to_string(),
                        summary: concat3("install of `", &self.package, "` cancelled"),
                        data,
                    },
                )
            },
            Err(m) => Answered::Failed(ToolError::new(m)),
        }
    }
}

impl InstallApproved {
    /// What was agreed to.
    pub closed spec fn plan(&self) -> InstallPlan {
        self.plan
    }

    /// The command to run.
    pub fn command(&self) -> (r: &str)
        ensures
            r@ == self.plan().command@,
    {
        self.plan.command.as_str()
    }

    /// What is reported once the command is through.
    pub fn report(&self, success: bool, status: &str) -> (r: Result<ToolResult, ToolError>)
        ensures
            outcome_of(r) == if success {
                Ok(
                    install_report(
                        self.plan().package@,
                        self.plan().command@,
                        self.plan().used_pkexec,
                    ),
                )
            } else {
                Err(
                    "install command exited with "@ + status@ + ": `"@ + self.plan().command@
                        + "`"@,
                )
            },
    {
        let plan = &self.plan;
        if !success {
            return Err(
                ToolError::new(
                    concat5("install command exited with ", status, ": `", &plan.command, "`"),
                ),
            );
        }
        let by = if plan.used_pkexec {
            "pkexec"
        } else {
            "sudo"
        };
        let b = ObjectBuilder::new().with("package", Json::text(&plan.package));
        let b = b.with("command", Json::text(&plan.command));
        let data = b.with("used_pkexec", Json::Bool(plan.used_pkexec)).build();
        Ok(
            ToolResult {
                tool: "install_package".to_string(),
                summary: concat4("installed `", &plan.package, "` via ", by),
                data,
            },
        )
    }
}

/// A name is accepted exactly where it is made of ASCII letters, digits and
/// the four signs and does not begin with a dash.
pub proof fn names_are_of_plain_characters(s: Seq<char>)
    ensures
        valid_package_name(s) <==> s.len() > 0 && s[0] != '-' && forall|i: int|
            0 <= i < s.len() ==> ('a' <= #[trigger] s[i] <= 'z' || 'A' <= s[i] <= 'Z' || '0' <= s[i]
                <= '9' || s[i] == '.' || s[i] == '_' || s[i] == '+' || s[i] == '-'),
{
    if valid_package_name(s) {
        assert forall|i: int| 0 <= i < s.len() implies ('a' <= #[trigger] s[i] <= 'z' || 'A' <= s[i]
            <= 'Z' || '0' <= s[i] <= '9' || s[i] == '.' || s[i] == '_' || s[i] == '+' || s[i]
            == '-') by {
            assert(is_package_char(s[i]));
        }
    }
}

/// The name goes into the command where the template says so, and all else of
/// the template stays.
pub proof fn name_goes_into_the_command(
    a: Seq<char>,
    b: Seq<char>,
    pkg: Seq<char>,
    pkexec: bool,
)
    requires
        !a.contains('{'),
        !contains(b, "{pkg}"@),
    ensures
        command_for(a + "{pkg}"@ + b, pkg, false) == (a + pkg + b, false),
        command_for("sudo "@ + a + "{pkg}"@ + b, pkg, true) == ("pkexec "@ + a + pkg + b, true),
        !has_prefix(a + "{pkg}"@ + b, "sudo "@) ==> command_for(a + "{pkg}"@ + b, pkg, pkexec) == (
            a + pkg + b,
            false,
        ),
{
    reveal_strlit("{pkg}");
    reveal_strlit("sudo ");
    let pat = "{pkg}"@;
    let s = a + pat + b;
    assert forall|j: int| 0 <= j < a.len() implies !occurs_at(s, pat, j) by {
        if occurs_at(s, pat, j) {
            assert(s.subrange(j, j + 5)[0] == s[j]);
            assert(a.contains(a[j]));
        }
    }
    replacing_goes_on_behind(a, pat, b, pkg);
    assert(replaced(s, pat, pkg) == a + pkg + b);
    let whole = "sudo "@ + a + pat + b;
    assert(whole.take(5) == "sudo "@);
    assert(whole.skip(5) == s);
    assert("pkexec "@ + (a + pkg + b) == "pkexec "@ + a + pkg + b);
}

proof fn install_keys_differ()
    ensures
        "cancelled"@.len() == 9,
        "package"@.len() == 7 && "package"@[0] == 'p',
        "command"@.len() == 7 && "command"@[0] == 'c',
        "used_pkexec"@.len() == 11,
{
    reveal_strlit("cancelled");
    reveal_strlit("package");
    reveal_strlit("command");
    reveal_strlit("used_pkexec");
}

/// The user is asked with the package and the very command; what was declined
/// is reported as cancelled, and what was installed with how it was.
pub proof fn installs_are_asked_and_reported(pkg: Seq<char>, command: Seq<char>, pkexec: bool)
    ensures
        install_question(pkg, command) == "tux: install `"@ + pkg + "` with: "@ + command
            + "\nproceed? [y/N]: "@,
        install_declined(pkg, command).tool == "install_package"@,
        install_declined(pkg, command).summary == "install of `"@ + pkg + "` cancelled"@,
        install_declined(pkg, command).data.truth_at("cancelled"@) == Some(true),
        install_declined(pkg, command).data.text_at("package"@) == Some(pkg),
        install_declined(pkg, command).data.text_at("command"@) == Some(command),
        install_report(pkg, command, pkexec).tool == "install_package"@,
        install_report(pkg, command, pkexec).summary == "installed `"@ + pkg + "` via "@ + (
        if pkexec {
            "pkexec"@
        } else {
            "sudo"@
        }),
        install_report(pkg, command, pkexec).data.text_at("package"@) == Some(pkg),
        install_report(pkg, command, pkexec).data.text_at("command"@) == Some(command),
        install_report(pkg, command, pkexec).data.truth_at("used_pkexec"@) == Some(pkexec),
{
    install_keys_differ();
}

/// A package is installed exactly where the call names one, its name is
/// accepted, and something is known of the distribution.
pub proof fn install_needs_name_and_knowledge(args: JsonView, known: bool)
    ensures
        install_complaint(args, known) is None <==> args.text_at("package"@) is Some
            && valid_package_name(args.text_at("package"@)->0) && known,
        args.text_at("package"@) is None ==> install_complaint(args, known) == Some(
            "install_package requires {\"package\":\"name\"}"@,
        ),
        args.text_at("package"@) matches Some(pkg) ==> (!valid_package_name(pkg)
            ==> install_complaint(args, known) == Some(
            "invalid package name "@ + quoted(pkg) + " (allowed: letters, digits, and . _ + -)"@,
        )),
        args.text_at("package"@) matches Some(pkg) ==> (valid_package_name(pkg) && !known
            ==> install_complaint(args, known) == Some(NO_KNOWLEDGE@)),
{
}

} // verus!
