//! Typed inputs of the built-in tools.

use vstd::prelude::*;

verus! {

#[derive(Debug, Clone)]
pub struct BashInput {
    pub command: String,
    pub timeout: Option<u64>,
    pub description: Option<String>,
    pub run_in_background: Option<bool>,
}

#[derive(Debug, Clone)]
pub struct FileReadInput {
    pub file_path: String,
    pub offset: Option<u64>,
    pub limit: Option<u64>,
    pub pages: Option<String>,
}

#[derive(Debug, Clone)]
pub struct FileWriteInput {
    pub file_path: String,
    pub content: String,
}

#[derive(Debug, Clone)]
pub struct FileEditInput {
    pub file_path: String,
    pub old_string: String,
    pub new_string: String,
    pub replace_all: Option<bool>,
}

#[derive(Debug, Clone)]
pub struct GlobInput {
    pub pattern: String,
    pub path: Option<String>,
}

/// What the Grep tool reports.
#[derive(Debug, Clone, Copy, PartialEq, Eq, Structural)]
pub enum GrepOutputMode {
    Content,
    FilesWithMatches,
    Count,
}

#[derive(Debug, Clone)]
pub struct GrepInput {
    pub pattern: String,
    pub path: Option<String>,
    pub glob: Option<String>,
    pub file_type: Option<String>,
    pub output_mode: Option<GrepOutputMode>,
    pub case_insensitive: Option<bool>,
    pub line_numbers: Option<bool>,
    pub before_context: Option<u32>,
    pub after_context: Option<u32>,
    pub context_alias: Option<u32>,
    pub context: Option<u32>,
    pub head_limit: Option<u32>,
    pub offset: Option<u32>,
    pub multiline: Option<bool>,
}

#[derive(Debug, Clone)]
pub struct WebFetchInput {
    pub url: String,
    pub prompt: String,
}

#[derive(Debug, Clone)]
pub struct WebSearchInput {
    pub query: String,
    pub allowed_domains: Option<Vec<String>>,
    pub blocked_domains: Option<Vec<String>>,
}

#[derive(Debug, Clone)]
pub struct QuestionOption {
    pub label: String,
    pub description: String,
    pub preview: Option<String>,
}

#[derive(Debug, Clone)]
pub struct Question {
    pub question: String,
    pub header: String,
    pub options: Vec<QuestionOption>,
    pub multi_select: bool,
}

#[derive(Debug, Clone)]
pub struct AskUserQuestionInput {
    pub questions: Vec<Question>,
}

#[derive(Debug, Clone, Copy, PartialEq, Eq, Structural)]
pub enum CellType {
    Code,
    Markdown,
}

#[derive(Debug, Clone, Copy, PartialEq, Eq, Structural)]
pub enum EditMode {
    Replace,
    Insert,
    Delete,
}

#[derive(Debug, Clone)]
pub struct NotebookEditInput {
    pub notebook_path: String,
    pub cell_id: Option<String>,
    pub new_source: String,
    pub cell_type: Option<CellType>,
    pub edit_mode: Option<EditMode>,
}

#[derive(Debug, Clone, Copy, PartialEq, Eq, Structural)]
pub enum TodoStatus {
    Pending,
    InProgress,
    Completed,
}

#[derive(Debug, Clone)]
pub struct TodoItem {
    pub content: String,
    pub status: TodoStatus,
    pub active_form: String,
}

#[derive(Debug, Clone)]
pub struct TodoWriteInput {
    pub todos: Vec<TodoItem>,
}

} // verus!
