//! The tool by which the model changes its own configuration: the facts
//! about the distribution that the user's file keeps.
use vstd::prelude::*;

use super::{text_arg, ToolError, ToolResult, ToolResultView};
use crate::context::{last_value, os_release_field};
use crate::json::{json_render, Json, JsonView, ObjectBuilder};
use crate::knowledge::{
    field_updated, opt_knowledge, update_field, DistroKnowledge, FieldError, KnowledgeView,
};
use crate::lines::lines_of;
use crate::paths::opt_text;
use crate::text::{concat2, concat3, concat6};

verus! {

/// Changes one fact. Knows the host's distribution, so that there is a
/// starting point where the user's file does not exist yet.
#[derive(Debug)]
pub struct SetKnowledgeTool {
    distro_id: Option<String>,
}

/// Why a call changes nothing, if its arguments are the reason.
pub open spec fn change_complaint(args: JsonView) -> Option<Seq<char>> {
    if args.text_at("field"@) is None {
        Some("set_knowledge: missing string arg `field`"@)
    } else if args.get("value"@) is None {
        Some("set_knowledge: missing arg `value`"@)
    } else {
        None
    }
}

/// What is said of a change that could not be made.
pub open spec fn field_complaint(e: FieldError, field: Seq<char>) -> Seq<char> {
    match e {
        FieldError::NoKnowledge => "set_knowledge: nothing is known of this distribution yet"@,
        FieldError::UnknownField => "set_knowledge: unknown field `"@ + field + "`"@,
        FieldError::NotText => "set_knowledge: `"@ + field + "` takes a string"@,
        FieldError::NotTexts => "set_knowledge: `"@ + field + "` takes a list of strings"@,
    }
}

/// What a change reports.
pub open spec fn change_report(
    path: Seq<char>,
    field: Seq<char>,
    value: JsonView,
    knowledge: KnowledgeView,
) -> ToolResultView {
    ToolResultView {
        tool: "set_knowledge"@,
        summary: "updated "@ + field + " in "@ + path + " (now: "@ + (json_render(value) + ")"@),
        data: JsonView::Object(
            map![
                "path"@ => JsonView::Text(path),
                "field"@ => JsonView::Text(field),
                "knowledge"@ => knowledge.object(),
            ],
        ),
    }
}

/// What the model is told about changing its own configuration.
pub const CHANGE_DESCRIPTION: &'static str = "Update one field of tux's own persisted configuration (system.json). Args: {\"field\":\"update_cmd\",\"value\":\"...\"}. Valid fields: package_manager, install_cmd, remove_cmd, search_cmd, update_cmd, escalation, service_manager, config_paths (list), notes (list). Use this when the user asks to change \"your\" config / knowledge / commands.";

impl SetKnowledgeTool {
    /// The distribution it knows of.
    pub closed spec fn distro(&self) -> Option<Seq<char>> {
        opt_text(self.distro_id)
    }

    /// The tool for a host of the distribution `distro_id`.
    pub fn new(distro_id: Option<String>) -> (r: Self)
        ensures
            r.distro() == opt_text(distro_id),
    {
        SetKnowledgeTool { distro_id }
    }

    /// The tool for a host, from the text of its os-release file.
    pub fn from_os_release(os_release: Option<&str>) -> (r: Self)
        ensures
            r.distro() == match os_release {
                Some(s) => last_value(lines_of(s@), "ID"@),
                None => None,
            },
    {
        SetKnowledgeTool {
            distro_id: match os_release {
                Some(s) => os_release_field(s, "ID"),
                None => None,
            },
        }
    }

    /// The name the model calls it by.
    pub fn name(&self) -> (r: &'static str)
        ensures
            r@ == "set_knowledge"@,
    {
        "set_knowledge"
    }

    /// What the model is told about it.
    pub fn description(&self) -> (r: &'static str)
        ensures
            r@ == CHANGE_DESCRIPTION@,
    {
        CHANGE_DESCRIPTION
    }

    /// The facts to keep after the change that a call asks for, given what
    /// the user's file holds.
    pub fn plan(&self, args: &Json, cached: Option<DistroKnowledge>) -> (r: Result<
        DistroKnowledge,
        ToolError,
    >)
        ensures
            match change_complaint(args@) {
                Some(m) => r matches Err(e) && e.message@ == m,
                None => match field_updated(
                    self.distro(),
                    opt_knowledge(cached),
                    args@.text_at("field"@)->0,
                    args@.get("value"@)->0,
                ) {
                    Ok(k) => r matches Ok(new) && new@ == k,
                    Err(why) => r matches Err(e) && e.message@ == field_complaint(
                        why,
                        args@.text_at("field"@)->0,
                    ),
                },
            },
    {
        let field = match text_arg(args, "field", "set_knowledge: missing string arg `field`") {
            Ok(s) => s,
            Err(e) => {
                return Err(e);
            },
        };
        let value = match args.get("value") {
            Some(v) => v,
            None => {
                return Err(ToolError::new("set_knowledge: missing arg `value`".to_string()));
            },
        };
        match update_field(&self.distro_id, cached, field, value) {
            Ok(k) => Ok(k),
            Err(FieldError::NoKnowledge) => Err(
                ToolError::new(
                    "set_knowledge: nothing is known of this distribution yet".to_string(),
                ),
            ),
            Err(FieldError::UnknownField) => Err(
                ToolError::new(concat3("set_knowledge: unknown field `", field, "`")),
            ),
            Err(FieldError::NotText) => Err(
                ToolError::new(concat3("set_knowledge: `", field, "` takes a string")),
            ),
            Err(FieldError::NotTexts) => Err(
                ToolError::new(concat3("set_knowledge: `", field, "` takes a list of strings")),
            ),
        }
    }

    /// What is reported once the facts `knowledge` are kept at `path`, for a
    /// call whose arguments were accepted.
    pub fn finish(&self, args: &Json, path: &str, knowledge: &DistroKnowledge) -> (r: ToolResult)
        requires
            change_complaint(args@) is None,
        ensures
            r@ == change_report(
                path@,
                args@.text_at("field"@)->0,
                args@.get("value"@)->0,
                knowledge@,
            ),
    {
        let field = match args.get_str("field") {
            Some(s) => s,
            None => "",
        };
        let shown = match args.get("value") {
            Some(v) => v.render(),
            None => String::new(),
        };
        let now = concat2(&shown, ")");
        let b = ObjectBuilder::new().with("path", Json::text(path));
        let b = b.with("field", Json::text(field));
        let data = b.with("knowledge", knowledge.to_json()).build();
        ToolResult {
            tool: "set_knowledge".to_string(),
            summary: concat6("updated ", field, " in ", path, " (now: ", &now),
            data,
        }
    }
}

/// A change needs a field and a value; what is missing first is what is said.
pub proof fn change_needs_field_and_value(args: JsonView)
    ensures
        change_complaint(args) is None <==> args.text_at("field"@) is Some && args.get(
            "value"@,
        ) is Some,
        args.text_at("field"@) is None ==> change_complaint(args) == Some(
            "set_knowledge: missing string arg `field`"@,
        ),
        args.text_at("field"@) is Some && args.get("value"@) is None ==> change_complaint(args)
            == Some("set_knowledge: missing arg `value`"@),
{
}

/// What is said of a change that could not be made names the field and what is
/// wrong.
pub proof fn refused_change_is_explained(field: Seq<char>)
    ensures
        field_complaint(FieldError::UnknownField, field) == "set_knowledge: unknown field `"@ + field
            + "`"@,
        field_complaint(FieldError::NotText, field) == "set_knowledge: `"@ + field
            + "` takes a string"@,
        field_complaint(FieldError::NotTexts, field) == "set_knowledge: `"@ + field
            + "` takes a list of strings"@,
        field_complaint(FieldError::NoKnowledge, field)
            == "set_knowledge: nothing is known of this distribution yet"@,
{
}

/// A change is reported with the file, the field, its new value, and all facts
/// as they now are.
pub proof fn change_is_reported(
    path: Seq<char>,
    field: Seq<char>,
    value: JsonView,
    knowledge: KnowledgeView,
)
    ensures
        ({
            let report = change_report(path, field, value, knowledge);
            &&& report.tool == "set_knowledge"@
            &&& report.data.text_at("path"@) == Some(path)
            &&& report.data.text_at("field"@) == Some(field)
            &&& report.data.get("knowledge"@) == Some(knowledge.object())
            &&& report.summary == "updated "@ + field + " in "@ + path + " (now: "@ + (json_render(
                value,
            ) + ")"@)
        }),
{
    reveal_strlit("path");
    reveal_strlit("field");
    reveal_strlit("knowledge");
    assert("path"@.len() == 4 && "field"@.len() == 5 && "knowledge"@.len() == 9);
}

} // verus!
