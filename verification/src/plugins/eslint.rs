//! ESLint, run from the project's `node_modules`.

use crate::json::{Json, JsonValue};
use crate::plugins::{
    column_field, int_field, line_field, listed, point, probe, read_column, read_int, read_line,
    read_listed, read_text, text_field, Defaults, DefaultsView, Diagnostic, Plugin,
    PluginLineOutput, PluginOutput, Position, Probe, ProbeStep, ReportEntry, Severity,
};
use crate::text::texts;
use vstd::prelude::*;
use vstd::string::*;

verus! {

/// The adapter for ESLint.
#[derive(Debug, Default, Clone, Copy)]
pub struct EslintPlugin;

/// ESLint's levels: 1 warns, 2 is an error, and anything else is a note.
pub open spec fn eslint_severity(level: i64) -> Severity {
    if level == 1 {
        Severity::Warning
    } else if level == 2 {
        Severity::Error
    } else {
        Severity::Info
    }
}

/// Whether every file of an ESLint report names its path.
pub open spec fn paths_named(files: Seq<JsonValue>) -> bool {
    forall|i: int| 0 <= i < files.len() ==> text_field(#[trigger] files[i], "filePath"@) is Some
}

impl ReportEntry for EslintPlugin {
    /// An entry has `severity`, `line`, `column` and `message`. The line
    /// counts from one and the column from zero; the finding is a point.
    open spec fn message(&self, m: JsonValue) -> Option<Diagnostic> {
        match (
            int_field(m, "severity"@),
            line_field(m, "line"@),
            column_field(m, "column"@),
            text_field(m, "message"@),
        ) {
            (Some(level), Some(line), Some(column), Some(text)) => Some(
                Diagnostic { position: point(line, column), text, severity: eslint_severity(level) },
            ),
            _ => None,
        }
    }

    fn read_message(&self, m: &Json) -> (r: Option<PluginLineOutput>) {
        let level = read_int(m, "severity")?;
        let line = read_line(m, "line")?;
        let column = read_column(m, "column")?;
        let text = read_text(m, "message")?;
        let severity = if level == 1 {
            Severity::Warning
        } else if level == 2 {
            Severity::Error
        } else {
            Severity::Info
        };
        Some(
            PluginLineOutput {
                position: Position { line, column, line_end: line, column_end: column },
                text,
                severity,
            },
        )
    }
}

/// ESLint's places: the line is one less than the tool's, the column is the
/// tool's, and the end is the start.
pub proof fn eslint_places(m: JsonValue)
    requires
        EslintPlugin.message(m) is Some,
    ensures
        EslintPlugin.message(m)->0.position.line == int_field(m, "line"@)->0 - 1,
        EslintPlugin.message(m)->0.position.column == int_field(m, "column"@)->0,
        EslintPlugin.message(m)->0.position.line_end == EslintPlugin.message(m)->0.position.line,
        EslintPlugin.message(m)->0.position.column_end == EslintPlugin.message(
            m,
        )->0.position.column,
        EslintPlugin.message(m)->0.text == text_field(m, "message"@)->0,
{
}

impl Plugin for EslintPlugin {
    open spec fn id(&self) -> Seq<char> {
        "eslint"@
    }

    open spec fn defaults(&self) -> DefaultsView {
        DefaultsView {
            local_bin: "/node_modules/.bin/eslint"@,
            global_cmd: None,
            args: seq!["-f=json"@],
            filetypes: seq!["js"@, "tsx"@, "vue"@, "svelte"@],
        }
    }

    /// A report is an array with one object for each file, which names the
    /// file under `filePath` and lists its entries under `messages`.
    open spec fn report(&self, report: JsonValue) -> Option<Seq<Diagnostic>> {
        match report {
            JsonValue::Array(files) => if paths_named(files) {
                listed(self, report, "messages"@)
            } else {
                None
            },
            _ => None,
        }
    }

    fn get_plugin_id(&self) -> (id: &str) {
        "eslint"
    }

    fn default_settings(&self) -> (d: Defaults) {
        let d = Defaults {
            local_bin: "/node_modules/.bin/eslint".to_owned(),
            global_cmd: None,
            args: vec!["-f=json".to_owned()],
            filetypes: vec!["js".to_owned(), "tsx".to_owned(), "vue".to_owned(), "svelte".to_owned()],
        };
        assert(texts(d.args@) =~= self.defaults().args);
        assert(texts(d.filetypes@) =~= self.defaults().filetypes);
        d
    }

    fn is_installed(&self, root_dir: &str, known: Probe) -> (step: ProbeStep) {
        probe(&self.default_settings(), root_dir, known)
    }

    fn normalize(&self, report: &Json) -> (r: Option<PluginOutput>) {
        let files = report.as_array()?;
        let ghost all = report@->Array_0;
        let mut i: usize = 0;
        while i < files.len()
            invariant
                i <= files.len(),
                report@ == JsonValue::Array(all),
                all.len() == files.len(),
                forall|k: int| 0 <= k < all.len() ==> all[k] == files[k]@,
                forall|k: int| 0 <= k < i ==> text_field(#[trigger] all[k], "filePath"@) is Some,
            decreases files.len() - i,
        {
            if read_text(&files[i], "filePath").is_none() {
                assert(text_field(all[i as int], "filePath"@) is None);
                return None;
            }
            i = i + 1;
        }
        read_listed(self, report, "messages")
    }
}

} // verus!
