//! What the actions of the window do, seen from outside.

use crate::cloud::actions::{
    acted, auth_acted, invite_token, picker_acted, project_acted, reference_acted,
    reference_dropped, reference_mentioned, service_acted, task_acted, SurroundingsView,
};
use crate::cloud::client::ClientView;
use crate::cloud::export_copy::text_models;
use crate::cloud::picker::{picker_begun, picker_toggled};
use crate::cloud::requests::plain_request;
use crate::cloud::results::task_fetched;
use crate::cloud::steps::StepView;
use crate::cloud::submissions::generation_asked;
use crate::cloud::teams::team_of;
use crate::json::JsonModel;
use crate::lists::{any, first_where, text_is};
use crate::text::{has_prefix, parsed_i32, trimmed};
use vstd::prelude::*;

verus! {

/// The actions are told apart.
proof fn actions_differ()
    ensures
        "logout"@.len() == 6,
        "purchase"@.len() == 8 && "purchase"@[0] == 'p',
        "generate"@.len() == 8 && "generate"@[0] == 'g',
        "navigate"@.len() == 8 && "navigate"@[0] == 'n',
        "auth-open"@.len() == 9 && "auth-open"@[0] == 'a',
        "team-join"@.len() == 9 && "team-join"@[0] == 't',
        "canvas-new"@.len() == 10 && "canvas-new"@[0] == 'c',
        "auth-close"@.len() == 10 && "auth-close"@[0] == 'a',
        "canvas-open"@.len() == 11 && "canvas-open"@[7] == 'o',
        "task-select"@.len() == 11 && "task-select"@[7] == 'l',
        "task-refill"@.len() == 11 && "task-refill"@[7] == 'f',
        "task-import"@.len() == 11 && "task-import"@[7] == 'p',
        "task-canvas"@.len() == 11 && "task-canvas"@[7] == 'n',
        "auth-submit"@.len() == 11 && "auth-submit"@[7] == 'b',
        "auth-switch"@.len() == 11 && "auth-switch"@[7] == 'i',
        "auth-resend"@.len() == 11 && "auth-resend"@[7] == 's',
        "team-create"@.len() == 11 && "team-create"@[7] == 'e',
        "task-preview"@.len() == 12 && "task-preview"@[6] == 'r' && "task-preview"@[0] == 't',
        "asset-delete"@.len() == 12 && "asset-delete"@[6] == 'd' && "asset-delete"@[0] == 'a',
        "asset-upload"@.len() == 12 && "asset-upload"@[6] == 'u' && "asset-upload"@[0] == 'a',
        "asset-import"@.len() == 12 && "asset-import"@[6] == 'i' && "asset-import"@[0] == 'a',
        "asset-canvas"@.len() == 12 && "asset-canvas"@[6] == 'c' && "asset-canvas"@[0] == 'a',
        "creator-mode"@.len() == 12 && "creator-mode"@[6] == 'r' && "creator-mode"@[0] == 'c',
        "project-ready"@.len() == 13 && "project-ready"@[11] == 'd' && "project-ready"@[0] == 'p',
        "task-download"@.len() == 13 && "task-download"@[11] == 'a' && "task-download"@[0] == 't',
        "tasks-refresh"@.len() == 13 && "tasks-refresh"@[11] == 's' && "tasks-refresh"@[0] == 't',
        "order-refresh"@.len() == 13 && "order-refresh"@[11] == 's' && "order-refresh"@[0] == 'o',
        "invite-create"@.len() == 13 && "invite-create"@[11] == 't' && "invite-create"@[0] == 'i',
        "invite-revoke"@.len() == 13 && "invite-revoke"@[11] == 'k' && "invite-revoke"@[0] == 'i',
        "member-remove"@.len() == 13 && "member-remove"@[11] == 'v' && "member-remove"@[0] == 'm',
        "asset-restore"@.len() == 13 && "asset-restore"@[11] == 'r' && "asset-restore"@[0] == 'a',
        "canvas-assets"@.len() == 13 && "canvas-assets"@[11] == 't' && "canvas-assets"@[0] == 'c',
        "asset-preview"@.len() == 13 && "asset-preview"@[11] == 'e' && "asset-preview"@[0] == 'a',
        "handoff-select"@.len() == 14 && "handoff-select"@[10] == 'l'
            && "handoff-select"@[0] == 'h',
        "handoff-cancel"@.len() == 14 && "handoff-cancel"@[10] == 'n'
            && "handoff-cancel"@[0] == 'h',
        "handoff-failed"@.len() == 14 && "handoff-failed"@[10] == 'i'
            && "handoff-failed"@[0] == 'h',
        "task-reference"@.len() == 14 && "task-reference"@[10] == 'e'
            && "task-reference"@[0] == 't',
        "task-save-team"@.len() == 14 && "task-save-team"@[10] == 't'
            && "task-save-team"@[0] == 't',
        "wallet-refresh"@.len() == 14 && "wallet-refresh"@[10] == 'r'
            && "wallet-refresh"@[0] == 'w',
        "assets-refresh"@.len() == 14 && "assets-refresh"@[10] == 'r'
            && "assets-refresh"@[0] == 'a',
        "project-assets"@.len() == 14 && "project-assets"@[10] == 's'
            && "project-assets"@[0] == 'p',
        "reference-team"@.len() == 14 && "reference-team"@[10] == 't'
            && "reference-team"@[0] == 'r',
        "reference-drop"@.len() == 14 && "reference-drop"@[10] == 'd'
            && "reference-drop"@[0] == 'r',
        "asset-download"@.len() == 14 && "asset-download"@[10] == 'l'
            && "asset-download"@[0] == 'a',
        "task-batch-clip"@.len() == 15 && "task-batch-clip"@[0] == 't',
        "change-password"@.len() == 15 && "change-password"@[0] == 'c',
        "members-refresh"@.len() == 15 && "members-refresh"@[0] == 'm',
        "reference-retry"@.len() == 15 && "reference-retry"@[0] == 'r',
        "asset-reference"@.len() == 15 && "asset-reference"@[0] == 'a',
        "handoff-complete"@.len() == 16 && "handoff-complete"@[10] == 'm',
        "reference-source"@.len() == 16 && "reference-source"@[10] == 's',
        "reference-browse"@.len() == 16 && "reference-browse"@[10] == 'b',
        "reference-remove"@.len() == 16 && "reference-remove"@[10] == 'r',
        "clip-project-sort"@.len() == 17 && "clip-project-sort"@[12] == '-'
            && "clip-project-sort"@[13] == 's',
        "clip-project-view"@.len() == 17 && "clip-project-view"@[12] == '-'
            && "clip-project-view"@[13] == 'v',
        "canvas-drop-batch"@.len() == 17 && "canvas-drop-batch"@[12] == 'b'
            && "canvas-drop-batch"@[13] == 'a',
        "task-batch-canvas"@.len() == 17 && "task-batch-canvas"@[12] == 'a'
            && "task-batch-canvas"@[13] == 'n',
        "task-batch-export"@.len() == 17 && "task-batch-export"@[12] == 'x'
            && "task-batch-export"@[13] == 'p',
        "auth-verify-start"@.len() == 17 && "auth-verify-start"@[12] == 's'
            && "auth-verify-start"@[13] == 't',
        "export-copy-close"@.len() == 17 && "export-copy-close"@[12] == 'c'
            && "export-copy-close"@[13] == 'l',
        "export-copy-retry"@.len() == 17 && "export-copy-retry"@[12] == 'r'
            && "export-copy-retry"@[13] == 'e',
        "reference-mention"@.len() == 17 && "reference-mention"@[12] == 'n'
            && "reference-mention"@[13] == 't',
        "reference-preview"@.len() == 17 && "reference-preview"@[12] == 'e'
            && "reference-preview"@[13] == 'v',
        "reference-replace"@.len() == 17 && "reference-replace"@[12] == 'p'
            && "reference-replace"@[13] == 'l',
        "task-preview-open"@.len() == 17 && "task-preview-open"@[12] == '-'
            && "task-preview-open"@[13] == 'o',
        "task-select-toggle"@.len() == 18 && "task-select-toggle"@[0] == 't',
        "export-copy-cancel"@.len() == 18 && "export-copy-cancel"@[0] == 'e',
        "clip-project-search"@.len() == 19 && "clip-project-search"@[15] == 'a',
        "canvas-project-sort"@.len() == 19 && "canvas-project-sort"@[15] == 's',
        "canvas-project-view"@.len() == 19 && "canvas-project-view"@[15] == 'v',
        "task-selection-mode"@.len() == 19 && "task-selection-mode"@[15] == 'm',
        "asset-picker-toggle"@.len() == 19 && "asset-picker-toggle"@[15] == 'g',
        "asset-picker-cancel"@.len() == 19 && "asset-picker-cancel"@[15] == 'n',
        "local-folder-browse"@.len() == 19 && "local-folder-browse"@[15] == 'o',
        "task-batch-reference"@.len() == 20 && "task-batch-reference"@[0] == 't',
        "asset-picker-confirm"@.len() == 20 && "asset-picker-confirm"@[0] == 'a',
        "media-preview-action"@.len() == 20 && "media-preview-action"@[0] == 'm',
        "handoff-create-cancel"@.len() == 21 && "handoff-create-cancel"@[3] == 'd',
        "canvas-project-search"@.len() == 21 && "canvas-project-search"@[3] == 'v',
        "cancel-project-import"@.len() == 21 && "cancel-project-import"@[3] == 'c',
        "reference-mention-open"@.len() == 22,
        "canvas-projects-refresh"@.len() == 23,
        "task-batch-freeze-delete"@.len() == 24 && "task-batch-freeze-delete"@[11] == 'f',
        "task-batch-cancel-delete"@.len() == 24 && "task-batch-cancel-delete"@[11] == 'c',
        "task-batch-confirm-delete"@.len() == 25,
{
    reveal_strlit("handoff-select");
    reveal_strlit("handoff-cancel");
    reveal_strlit("handoff-complete");
    reveal_strlit("handoff-failed");
    reveal_strlit("handoff-create-cancel");
    reveal_strlit("clip-project-search");
    reveal_strlit("clip-project-sort");
    reveal_strlit("clip-project-view");
    reveal_strlit("canvas-project-search");
    reveal_strlit("canvas-project-sort");
    reveal_strlit("canvas-project-view");
    reveal_strlit("canvas-projects-refresh");
    reveal_strlit("canvas-new");
    reveal_strlit("canvas-open");
    reveal_strlit("canvas-drop-batch");
    reveal_strlit("project-ready");
    reveal_strlit("cancel-project-import");
    reveal_strlit("task-batch-reference");
    reveal_strlit("task-batch-canvas");
    reveal_strlit("task-batch-clip");
    reveal_strlit("task-batch-export");
    reveal_strlit("task-selection-mode");
    reveal_strlit("task-select-toggle");
    reveal_strlit("task-batch-freeze-delete");
    reveal_strlit("task-batch-cancel-delete");
    reveal_strlit("task-batch-confirm-delete");
    reveal_strlit("task-select");
    reveal_strlit("task-refill");
    reveal_strlit("task-reference");
    reveal_strlit("task-preview");
    reveal_strlit("task-download");
    reveal_strlit("task-import");
    reveal_strlit("task-canvas");
    reveal_strlit("task-save-team");
    reveal_strlit("auth-open");
    reveal_strlit("auth-close");
    reveal_strlit("auth-submit");
    reveal_strlit("auth-switch");
    reveal_strlit("auth-resend");
    reveal_strlit("auth-verify-start");
    reveal_strlit("change-password");
    reveal_strlit("logout");
    reveal_strlit("wallet-refresh");
    reveal_strlit("tasks-refresh");
    reveal_strlit("purchase");
    reveal_strlit("order-refresh");
    reveal_strlit("team-create");
    reveal_strlit("team-join");
    reveal_strlit("invite-create");
    reveal_strlit("invite-revoke");
    reveal_strlit("member-remove");
    reveal_strlit("assets-refresh");
    reveal_strlit("members-refresh");
    reveal_strlit("asset-delete");
    reveal_strlit("asset-restore");
    reveal_strlit("export-copy-cancel");
    reveal_strlit("export-copy-close");
    reveal_strlit("export-copy-retry");
    reveal_strlit("project-assets");
    reveal_strlit("canvas-assets");
    reveal_strlit("reference-team");
    reveal_strlit("asset-picker-toggle");
    reveal_strlit("asset-picker-confirm");
    reveal_strlit("asset-picker-cancel");
    reveal_strlit("reference-source");
    reveal_strlit("reference-browse");
    reveal_strlit("asset-upload");
    reveal_strlit("reference-drop");
    reveal_strlit("reference-remove");
    reveal_strlit("reference-mention-open");
    reveal_strlit("reference-mention");
    reveal_strlit("reference-preview");
    reveal_strlit("reference-retry");
    reveal_strlit("reference-replace");
    reveal_strlit("asset-download");
    reveal_strlit("asset-reference");
    reveal_strlit("asset-import");
    reveal_strlit("asset-canvas");
    reveal_strlit("asset-preview");
    reveal_strlit("task-preview-open");
    reveal_strlit("media-preview-action");
    reveal_strlit("generate");
    reveal_strlit("navigate");
    reveal_strlit("creator-mode");
    reveal_strlit("local-folder-browse");
}

/// None of them is an action of the library or of the templates.
proof fn actions_are_plain()
    ensures
        !has_prefix("handoff-select"@, "personal-"@)
            && !has_prefix("handoff-select"@, "template-"@),
        !has_prefix("handoff-cancel"@, "personal-"@)
            && !has_prefix("handoff-cancel"@, "template-"@),
        !has_prefix("handoff-complete"@, "personal-"@)
            && !has_prefix("handoff-complete"@, "template-"@),
        !has_prefix("handoff-failed"@, "personal-"@)
            && !has_prefix("handoff-failed"@, "template-"@),
        !has_prefix("handoff-create-cancel"@, "personal-"@)
            && !has_prefix("handoff-create-cancel"@, "template-"@),
        !has_prefix("clip-project-search"@, "personal-"@)
            && !has_prefix("clip-project-search"@, "template-"@),
        !has_prefix("clip-project-sort"@, "personal-"@)
            && !has_prefix("clip-project-sort"@, "template-"@),
        !has_prefix("clip-project-view"@, "personal-"@)
            && !has_prefix("clip-project-view"@, "template-"@),
        !has_prefix("canvas-project-search"@, "personal-"@)
            && !has_prefix("canvas-project-search"@, "template-"@),
        !has_prefix("canvas-project-sort"@, "personal-"@)
            && !has_prefix("canvas-project-sort"@, "template-"@),
        !has_prefix("canvas-project-view"@, "personal-"@)
            && !has_prefix("canvas-project-view"@, "template-"@),
        !has_prefix("canvas-projects-refresh"@, "personal-"@)
            && !has_prefix("canvas-projects-refresh"@, "template-"@),
        !has_prefix("canvas-new"@, "personal-"@) && !has_prefix("canvas-new"@, "template-"@),
        !has_prefix("canvas-open"@, "personal-"@) && !has_prefix("canvas-open"@, "template-"@),
        !has_prefix("canvas-drop-batch"@, "personal-"@)
            && !has_prefix("canvas-drop-batch"@, "template-"@),
        !has_prefix("project-ready"@, "personal-"@) && !has_prefix("project-ready"@, "template-"@),
        !has_prefix("cancel-project-import"@, "personal-"@)
            && !has_prefix("cancel-project-import"@, "template-"@),
        !has_prefix("task-batch-reference"@, "personal-"@)
            && !has_prefix("task-batch-reference"@, "template-"@),
        !has_prefix("task-batch-canvas"@, "personal-"@)
            && !has_prefix("task-batch-canvas"@, "template-"@),
        !has_prefix("task-batch-clip"@, "personal-"@)
            && !has_prefix("task-batch-clip"@, "template-"@),
        !has_prefix("task-batch-export"@, "personal-"@)
            && !has_prefix("task-batch-export"@, "template-"@),
        !has_prefix("task-selection-mode"@, "personal-"@)
            && !has_prefix("task-selection-mode"@, "template-"@),
        !has_prefix("task-select-toggle"@, "personal-"@)
            && !has_prefix("task-select-toggle"@, "template-"@),
        !has_prefix("task-batch-freeze-delete"@, "personal-"@)
            && !has_prefix("task-batch-freeze-delete"@, "template-"@),
        !has_prefix("task-batch-cancel-delete"@, "personal-"@)
            && !has_prefix("task-batch-cancel-delete"@, "template-"@),
        !has_prefix("task-batch-confirm-delete"@, "personal-"@)
            && !has_prefix("task-batch-confirm-delete"@, "template-"@),
        !has_prefix("task-select"@, "personal-"@) && !has_prefix("task-select"@, "template-"@),
        !has_prefix("task-refill"@, "personal-"@) && !has_prefix("task-refill"@, "template-"@),
        !has_prefix("task-reference"@, "personal-"@)
            && !has_prefix("task-reference"@, "template-"@),
        !has_prefix("task-preview"@, "personal-"@) && !has_prefix("task-preview"@, "template-"@),
        !has_prefix("task-download"@, "personal-"@) && !has_prefix("task-download"@, "template-"@),
        !has_prefix("task-import"@, "personal-"@) && !has_prefix("task-import"@, "template-"@),
        !has_prefix("task-canvas"@, "personal-"@) && !has_prefix("task-canvas"@, "template-"@),
        !has_prefix("task-save-team"@, "personal-"@)
            && !has_prefix("task-save-team"@, "template-"@),
        !has_prefix("auth-open"@, "personal-"@) && !has_prefix("auth-open"@, "template-"@),
        !has_prefix("auth-close"@, "personal-"@) && !has_prefix("auth-close"@, "template-"@),
        !has_prefix("auth-submit"@, "personal-"@) && !has_prefix("auth-submit"@, "template-"@),
        !has_prefix("auth-switch"@, "personal-"@) && !has_prefix("auth-switch"@, "template-"@),
        !has_prefix("auth-resend"@, "personal-"@) && !has_prefix("auth-resend"@, "template-"@),
        !has_prefix("auth-verify-start"@, "personal-"@)
            && !has_prefix("auth-verify-start"@, "template-"@),
        !has_prefix("change-password"@, "personal-"@)
            && !has_prefix("change-password"@, "template-"@),
        !has_prefix("logout"@, "personal-"@) && !has_prefix("logout"@, "template-"@),
        !has_prefix("wallet-refresh"@, "personal-"@)
            && !has_prefix("wallet-refresh"@, "template-"@),
        !has_prefix("tasks-refresh"@, "personal-"@) && !has_prefix("tasks-refresh"@, "template-"@),
        !has_prefix("purchase"@, "personal-"@) && !has_prefix("purchase"@, "template-"@),
        !has_prefix("order-refresh"@, "personal-"@) && !has_prefix("order-refresh"@, "template-"@),
        !has_prefix("team-create"@, "personal-"@) && !has_prefix("team-create"@, "template-"@),
        !has_prefix("team-join"@, "personal-"@) && !has_prefix("team-join"@, "template-"@),
        !has_prefix("invite-create"@, "personal-"@) && !has_prefix("invite-create"@, "template-"@),
        !has_prefix("invite-revoke"@, "personal-"@) && !has_prefix("invite-revoke"@, "template-"@),
        !has_prefix("member-remove"@, "personal-"@) && !has_prefix("member-remove"@, "template-"@),
        !has_prefix("assets-refresh"@, "personal-"@)
            && !has_prefix("assets-refresh"@, "template-"@),
        !has_prefix("members-refresh"@, "personal-"@)
            && !has_prefix("members-refresh"@, "template-"@),
        !has_prefix("asset-delete"@, "personal-"@) && !has_prefix("asset-delete"@, "template-"@),
        !has_prefix("asset-restore"@, "personal-"@) && !has_prefix("asset-restore"@, "template-"@),
        !has_prefix("export-copy-cancel"@, "personal-"@)
            && !has_prefix("export-copy-cancel"@, "template-"@),
        !has_prefix("export-copy-close"@, "personal-"@)
            && !has_prefix("export-copy-close"@, "template-"@),
        !has_prefix("export-copy-retry"@, "personal-"@)
            && !has_prefix("export-copy-retry"@, "template-"@),
        !has_prefix("project-assets"@, "personal-"@)
            && !has_prefix("project-assets"@, "template-"@),
        !has_prefix("canvas-assets"@, "personal-"@) && !has_prefix("canvas-assets"@, "template-"@),
        !has_prefix("reference-team"@, "personal-"@)
            && !has_prefix("reference-team"@, "template-"@),
        !has_prefix("asset-picker-toggle"@, "personal-"@)
            && !has_prefix("asset-picker-toggle"@, "template-"@),
        !has_prefix("asset-picker-confirm"@, "personal-"@)
            && !has_prefix("asset-picker-confirm"@, "template-"@),
        !has_prefix("asset-picker-cancel"@, "personal-"@)
            && !has_prefix("asset-picker-cancel"@, "template-"@),
        !has_prefix("reference-source"@, "personal-"@)
            && !has_prefix("reference-source"@, "template-"@),
        !has_prefix("reference-browse"@, "personal-"@)
            && !has_prefix("reference-browse"@, "template-"@),
        !has_prefix("asset-upload"@, "personal-"@) && !has_prefix("asset-upload"@, "template-"@),
        !has_prefix("reference-drop"@, "personal-"@)
            && !has_prefix("reference-drop"@, "template-"@),
        !has_prefix("reference-remove"@, "personal-"@)
            && !has_prefix("reference-remove"@, "template-"@),
        !has_prefix("reference-mention-open"@, "personal-"@)
            && !has_prefix("reference-mention-open"@, "template-"@),
        !has_prefix("reference-mention"@, "personal-"@)
            && !has_prefix("reference-mention"@, "template-"@),
        !has_prefix("reference-preview"@, "personal-"@)
            && !has_prefix("reference-preview"@, "template-"@),
        !has_prefix("reference-retry"@, "personal-"@)
            && !has_prefix("reference-retry"@, "template-"@),
        !has_prefix("reference-replace"@, "personal-"@)
            && !has_prefix("reference-replace"@, "template-"@),
        !has_prefix("asset-download"@, "personal-"@)
            && !has_prefix("asset-download"@, "template-"@),
        !has_prefix("asset-reference"@, "personal-"@)
            && !has_prefix("asset-reference"@, "template-"@),
        !has_prefix("asset-import"@, "personal-"@) && !has_prefix("asset-import"@, "template-"@),
        !has_prefix("asset-canvas"@, "personal-"@) && !has_prefix("asset-canvas"@, "template-"@),
        !has_prefix("asset-preview"@, "personal-"@) && !has_prefix("asset-preview"@, "template-"@),
        !has_prefix("task-preview-open"@, "personal-"@)
            && !has_prefix("task-preview-open"@, "template-"@),
        !has_prefix("media-preview-action"@, "personal-"@)
            && !has_prefix("media-preview-action"@, "template-"@),
        !has_prefix("generate"@, "personal-"@) && !has_prefix("generate"@, "template-"@),
        !has_prefix("navigate"@, "personal-"@) && !has_prefix("navigate"@, "template-"@),
        !has_prefix("creator-mode"@, "personal-"@) && !has_prefix("creator-mode"@, "template-"@),
        !has_prefix("local-folder-browse"@, "personal-"@)
            && !has_prefix("local-folder-browse"@, "template-"@),
{
    reveal_strlit("personal-");
    reveal_strlit("template-");
    reveal_strlit("handoff-select");
    reveal_strlit("handoff-cancel");
    reveal_strlit("handoff-complete");
    reveal_strlit("handoff-failed");
    reveal_strlit("handoff-create-cancel");
    reveal_strlit("clip-project-search");
    reveal_strlit("clip-project-sort");
    reveal_strlit("clip-project-view");
    reveal_strlit("canvas-project-search");
    reveal_strlit("canvas-project-sort");
    reveal_strlit("canvas-project-view");
    reveal_strlit("canvas-projects-refresh");
    reveal_strlit("canvas-new");
    reveal_strlit("canvas-open");
    reveal_strlit("canvas-drop-batch");
    reveal_strlit("project-ready");
    reveal_strlit("cancel-project-import");
    reveal_strlit("task-batch-reference");
    reveal_strlit("task-batch-canvas");
    reveal_strlit("task-batch-clip");
    reveal_strlit("task-batch-export");
    reveal_strlit("task-selection-mode");
    reveal_strlit("task-select-toggle");
    reveal_strlit("task-batch-freeze-delete");
    reveal_strlit("task-batch-cancel-delete");
    reveal_strlit("task-batch-confirm-delete");
    reveal_strlit("task-select");
    reveal_strlit("task-refill");
    reveal_strlit("task-reference");
    reveal_strlit("task-preview");
    reveal_strlit("task-download");
    reveal_strlit("task-import");
    reveal_strlit("task-canvas");
    reveal_strlit("task-save-team");
    reveal_strlit("auth-open");
    reveal_strlit("auth-close");
    reveal_strlit("auth-submit");
    reveal_strlit("auth-switch");
    reveal_strlit("auth-resend");
    reveal_strlit("auth-verify-start");
    reveal_strlit("change-password");
    reveal_strlit("logout");
    reveal_strlit("wallet-refresh");
    reveal_strlit("tasks-refresh");
    reveal_strlit("purchase");
    reveal_strlit("order-refresh");
    reveal_strlit("team-create");
    reveal_strlit("team-join");
    reveal_strlit("invite-create");
    reveal_strlit("invite-revoke");
    reveal_strlit("member-remove");
    reveal_strlit("assets-refresh");
    reveal_strlit("members-refresh");
    reveal_strlit("asset-delete");
    reveal_strlit("asset-restore");
    reveal_strlit("export-copy-cancel");
    reveal_strlit("export-copy-close");
    reveal_strlit("export-copy-retry");
    reveal_strlit("project-assets");
    reveal_strlit("canvas-assets");
    reveal_strlit("reference-team");
    reveal_strlit("asset-picker-toggle");
    reveal_strlit("asset-picker-confirm");
    reveal_strlit("asset-picker-cancel");
    reveal_strlit("reference-source");
    reveal_strlit("reference-browse");
    reveal_strlit("asset-upload");
    reveal_strlit("reference-drop");
    reveal_strlit("reference-remove");
    reveal_strlit("reference-mention-open");
    reveal_strlit("reference-mention");
    reveal_strlit("reference-preview");
    reveal_strlit("reference-retry");
    reveal_strlit("reference-replace");
    reveal_strlit("asset-download");
    reveal_strlit("asset-reference");
    reveal_strlit("asset-import");
    reveal_strlit("asset-canvas");
    reveal_strlit("asset-preview");
    reveal_strlit("task-preview-open");
    reveal_strlit("media-preview-action");
    reveal_strlit("generate");
    reveal_strlit("navigate");
    reveal_strlit("creator-mode");
    reveal_strlit("local-folder-browse");
    if has_prefix("handoff-select"@, "personal-"@) {
        assert("handoff-select"@.subrange(0, 9)[0] == "handoff-select"@[0]);
    }
    if has_prefix("handoff-select"@, "template-"@) {
        assert("handoff-select"@.subrange(0, 9)[0] == "handoff-select"@[0]);
    }
    if has_prefix("handoff-cancel"@, "personal-"@) {
        assert("handoff-cancel"@.subrange(0, 9)[0] == "handoff-cancel"@[0]);
    }
    if has_prefix("handoff-cancel"@, "template-"@) {
        assert("handoff-cancel"@.subrange(0, 9)[0] == "handoff-cancel"@[0]);
    }
    if has_prefix("handoff-complete"@, "personal-"@) {
        assert("handoff-complete"@.subrange(0, 9)[0] == "handoff-complete"@[0]);
    }
    if has_prefix("handoff-complete"@, "template-"@) {
        assert("handoff-complete"@.subrange(0, 9)[0] == "handoff-complete"@[0]);
    }
    if has_prefix("handoff-failed"@, "personal-"@) {
        assert("handoff-failed"@.subrange(0, 9)[0] == "handoff-failed"@[0]);
    }
    if has_prefix("handoff-failed"@, "template-"@) {
        assert("handoff-failed"@.subrange(0, 9)[0] == "handoff-failed"@[0]);
    }
    if has_prefix("handoff-create-cancel"@, "personal-"@) {
        assert("handoff-create-cancel"@.subrange(0, 9)[0] == "handoff-create-cancel"@[0]);
    }
    if has_prefix("handoff-create-cancel"@, "template-"@) {
        assert("handoff-create-cancel"@.subrange(0, 9)[0] == "handoff-create-cancel"@[0]);
    }
    if has_prefix("clip-project-search"@, "personal-"@) {
        assert("clip-project-search"@.subrange(0, 9)[0] == "clip-project-search"@[0]);
    }
    if has_prefix("clip-project-search"@, "template-"@) {
        assert("clip-project-search"@.subrange(0, 9)[0] == "clip-project-search"@[0]);
    }
    if has_prefix("clip-project-sort"@, "personal-"@) {
        assert("clip-project-sort"@.subrange(0, 9)[0] == "clip-project-sort"@[0]);
    }
    if has_prefix("clip-project-sort"@, "template-"@) {
        assert("clip-project-sort"@.subrange(0, 9)[0] == "clip-project-sort"@[0]);
    }
    if has_prefix("clip-project-view"@, "personal-"@) {
        assert("clip-project-view"@.subrange(0, 9)[0] == "clip-project-view"@[0]);
    }
    if has_prefix("clip-project-view"@, "template-"@) {
        assert("clip-project-view"@.subrange(0, 9)[0] == "clip-project-view"@[0]);
    }
    if has_prefix("canvas-project-search"@, "personal-"@) {
        assert("canvas-project-search"@.subrange(0, 9)[0] == "canvas-project-search"@[0]);
    }
    if has_prefix("canvas-project-search"@, "template-"@) {
        assert("canvas-project-search"@.subrange(0, 9)[0] == "canvas-project-search"@[0]);
    }
    if has_prefix("canvas-project-sort"@, "personal-"@) {
        assert("canvas-project-sort"@.subrange(0, 9)[0] == "canvas-project-sort"@[0]);
    }
    if has_prefix("canvas-project-sort"@, "template-"@) {
        assert("canvas-project-sort"@.subrange(0, 9)[0] == "canvas-project-sort"@[0]);
    }
    if has_prefix("canvas-project-view"@, "personal-"@) {
        assert("canvas-project-view"@.subrange(0, 9)[0] == "canvas-project-view"@[0]);
    }
    if has_prefix("canvas-project-view"@, "template-"@) {
        assert("canvas-project-view"@.subrange(0, 9)[0] == "canvas-project-view"@[0]);
    }
    if has_prefix("canvas-projects-refresh"@, "personal-"@) {
        assert("canvas-projects-refresh"@.subrange(0, 9)[0] == "canvas-projects-refresh"@[0]);
    }
    if has_prefix("canvas-projects-refresh"@, "template-"@) {
        assert("canvas-projects-refresh"@.subrange(0, 9)[0] == "canvas-projects-refresh"@[0]);
    }
    if has_prefix("canvas-new"@, "personal-"@) {
        assert("canvas-new"@.subrange(0, 9)[0] == "canvas-new"@[0]);
    }
    if has_prefix("canvas-new"@, "template-"@) {
        assert("canvas-new"@.subrange(0, 9)[0] == "canvas-new"@[0]);
    }
    if has_prefix("canvas-open"@, "personal-"@) {
        assert("canvas-open"@.subrange(0, 9)[0] == "canvas-open"@[0]);
    }
    if has_prefix("canvas-open"@, "template-"@) {
        assert("canvas-open"@.subrange(0, 9)[0] == "canvas-open"@[0]);
    }
    if has_prefix("canvas-drop-batch"@, "personal-"@) {
        assert("canvas-drop-batch"@.subrange(0, 9)[0] == "canvas-drop-batch"@[0]);
    }
    if has_prefix("canvas-drop-batch"@, "template-"@) {
        assert("canvas-drop-batch"@.subrange(0, 9)[0] == "canvas-drop-batch"@[0]);
    }
    if has_prefix("project-ready"@, "personal-"@) {
        assert("project-ready"@.subrange(0, 9)[1] == "project-ready"@[1]);
    }
    if has_prefix("project-ready"@, "template-"@) {
        assert("project-ready"@.subrange(0, 9)[0] == "project-ready"@[0]);
    }
    if has_prefix("cancel-project-import"@, "personal-"@) {
        assert("cancel-project-import"@.subrange(0, 9)[0] == "cancel-project-import"@[0]);
    }
    if has_prefix("cancel-project-import"@, "template-"@) {
        assert("cancel-project-import"@.subrange(0, 9)[0] == "cancel-project-import"@[0]);
    }
    if has_prefix("task-batch-reference"@, "personal-"@) {
        assert("task-batch-reference"@.subrange(0, 9)[0] == "task-batch-reference"@[0]);
    }
    if has_prefix("task-batch-reference"@, "template-"@) {
        assert("task-batch-reference"@.subrange(0, 9)[1] == "task-batch-reference"@[1]);
    }
    if has_prefix("task-batch-canvas"@, "personal-"@) {
        assert("task-batch-canvas"@.subrange(0, 9)[0] == "task-batch-canvas"@[0]);
    }
    if has_prefix("task-batch-canvas"@, "template-"@) {
        assert("task-batch-canvas"@.subrange(0, 9)[1] == "task-batch-canvas"@[1]);
    }
    if has_prefix("task-batch-clip"@, "personal-"@) {
        assert("task-batch-clip"@.subrange(0, 9)[0] == "task-batch-clip"@[0]);
    }
    if has_prefix("task-batch-clip"@, "template-"@) {
        assert("task-batch-clip"@.subrange(0, 9)[1] == "task-batch-clip"@[1]);
    }
    if has_prefix("task-batch-export"@, "personal-"@) {
        assert("task-batch-export"@.subrange(0, 9)[0] == "task-batch-export"@[0]);
    }
    if has_prefix("task-batch-export"@, "template-"@) {
        assert("task-batch-export"@.subrange(0, 9)[1] == "task-batch-export"@[1]);
    }
    if has_prefix("task-selection-mode"@, "personal-"@) {
        assert("task-selection-mode"@.subrange(0, 9)[0] == "task-selection-mode"@[0]);
    }
    if has_prefix("task-selection-mode"@, "template-"@) {
        assert("task-selection-mode"@.subrange(0, 9)[1] == "task-selection-mode"@[1]);
    }
    if has_prefix("task-select-toggle"@, "personal-"@) {
        assert("task-select-toggle"@.subrange(0, 9)[0] == "task-select-toggle"@[0]);
    }
    if has_prefix("task-select-toggle"@, "template-"@) {
        assert("task-select-toggle"@.subrange(0, 9)[1] == "task-select-toggle"@[1]);
    }
    if has_prefix("task-batch-freeze-delete"@, "personal-"@) {
        assert("task-batch-freeze-delete"@.subrange(0, 9)[0] == "task-batch-freeze-delete"@[0]);
    }
    if has_prefix("task-batch-freeze-delete"@, "template-"@) {
        assert("task-batch-freeze-delete"@.subrange(0, 9)[1] == "task-batch-freeze-delete"@[1]);
    }
    if has_prefix("task-batch-cancel-delete"@, "personal-"@) {
        assert("task-batch-cancel-delete"@.subrange(0, 9)[0] == "task-batch-cancel-delete"@[0]);
    }
    if has_prefix("task-batch-cancel-delete"@, "template-"@) {
        assert("task-batch-cancel-delete"@.subrange(0, 9)[1] == "task-batch-cancel-delete"@[1]);
    }
    if has_prefix("task-batch-confirm-delete"@, "personal-"@) {
        assert("task-batch-confirm-delete"@.subrange(0, 9)[0] == "task-batch-confirm-delete"@[0]);
    }
    if has_prefix("task-batch-confirm-delete"@, "template-"@) {
        assert("task-batch-confirm-delete"@.subrange(0, 9)[1] == "task-batch-confirm-delete"@[1]);
    }
    if has_prefix("task-select"@, "personal-"@) {
        assert("task-select"@.subrange(0, 9)[0] == "task-select"@[0]);
    }
    if has_prefix("task-select"@, "template-"@) {
        assert("task-select"@.subrange(0, 9)[1] == "task-select"@[1]);
    }
    if has_prefix("task-refill"@, "personal-"@) {
        assert("task-refill"@.subrange(0, 9)[0] == "task-refill"@[0]);
    }
    if has_prefix("task-refill"@, "template-"@) {
        assert("task-refill"@.subrange(0, 9)[1] == "task-refill"@[1]);
    }
    if has_prefix("task-reference"@, "personal-"@) {
        assert("task-reference"@.subrange(0, 9)[0] == "task-reference"@[0]);
    }
    if has_prefix("task-reference"@, "template-"@) {
        assert("task-reference"@.subrange(0, 9)[1] == "task-reference"@[1]);
    }
    if has_prefix("task-preview"@, "personal-"@) {
        assert("task-preview"@.subrange(0, 9)[0] == "task-preview"@[0]);
    }
    if has_prefix("task-preview"@, "template-"@) {
        assert("task-preview"@.subrange(0, 9)[1] == "task-preview"@[1]);
    }
    if has_prefix("task-download"@, "personal-"@) {
        assert("task-download"@.subrange(0, 9)[0] == "task-download"@[0]);
    }
    if has_prefix("task-download"@, "template-"@) {
        assert("task-download"@.subrange(0, 9)[1] == "task-download"@[1]);
    }
    if has_prefix("task-import"@, "personal-"@) {
        assert("task-import"@.subrange(0, 9)[0] == "task-import"@[0]);
    }
    if has_prefix("task-import"@, "template-"@) {
        assert("task-import"@.subrange(0, 9)[1] == "task-import"@[1]);
    }
    if has_prefix("task-canvas"@, "personal-"@) {
        assert("task-canvas"@.subrange(0, 9)[0] == "task-canvas"@[0]);
    }
    if has_prefix("task-canvas"@, "template-"@) {
        assert("task-canvas"@.subrange(0, 9)[1] == "task-canvas"@[1]);
    }
    if has_prefix("task-save-team"@, "personal-"@) {
        assert("task-save-team"@.subrange(0, 9)[0] == "task-save-team"@[0]);
    }
    if has_prefix("task-save-team"@, "template-"@) {
        assert("task-save-team"@.subrange(0, 9)[1] == "task-save-team"@[1]);
    }
    if has_prefix("auth-open"@, "personal-"@) {
        assert("auth-open"@.subrange(0, 9)[0] == "auth-open"@[0]);
    }
    if has_prefix("auth-open"@, "template-"@) {
        assert("auth-open"@.subrange(0, 9)[0] == "auth-open"@[0]);
    }
    if has_prefix("auth-close"@, "personal-"@) {
        assert("auth-close"@.subrange(0, 9)[0] == "auth-close"@[0]);
    }
    if has_prefix("auth-close"@, "template-"@) {
        assert("auth-close"@.subrange(0, 9)[0] == "auth-close"@[0]);
    }
    if has_prefix("auth-submit"@, "personal-"@) {
        assert("auth-submit"@.subrange(0, 9)[0] == "auth-submit"@[0]);
    }
    if has_prefix("auth-submit"@, "template-"@) {
        assert("auth-submit"@.subrange(0, 9)[0] == "auth-submit"@[0]);
    }
    if has_prefix("auth-switch"@, "personal-"@) {
        assert("auth-switch"@.subrange(0, 9)[0] == "auth-switch"@[0]);
    }
    if has_prefix("auth-switch"@, "template-"@) {
        assert("auth-switch"@.subrange(0, 9)[0] == "auth-switch"@[0]);
    }
    if has_prefix("auth-resend"@, "personal-"@) {
        assert("auth-resend"@.subrange(0, 9)[0] == "auth-resend"@[0]);
    }
    if has_prefix("auth-resend"@, "template-"@) {
        assert("auth-resend"@.subrange(0, 9)[0] == "auth-resend"@[0]);
    }
    if has_prefix("auth-verify-start"@, "personal-"@) {
        assert("auth-verify-start"@.subrange(0, 9)[0] == "auth-verify-start"@[0]);
    }
    if has_prefix("auth-verify-start"@, "template-"@) {
        assert("auth-verify-start"@.subrange(0, 9)[0] == "auth-verify-start"@[0]);
    }
    if has_prefix("change-password"@, "personal-"@) {
        assert("change-password"@.subrange(0, 9)[0] == "change-password"@[0]);
    }
    if has_prefix("change-password"@, "template-"@) {
        assert("change-password"@.subrange(0, 9)[0] == "change-password"@[0]);
    }
    if has_prefix("wallet-refresh"@, "personal-"@) {
        assert("wallet-refresh"@.subrange(0, 9)[0] == "wallet-refresh"@[0]);
    }
    if has_prefix("wallet-refresh"@, "template-"@) {
        assert("wallet-refresh"@.subrange(0, 9)[0] == "wallet-refresh"@[0]);
    }
    if has_prefix("tasks-refresh"@, "personal-"@) {
        assert("tasks-refresh"@.subrange(0, 9)[0] == "tasks-refresh"@[0]);
    }
    if has_prefix("tasks-refresh"@, "template-"@) {
        assert("tasks-refresh"@.subrange(0, 9)[1] == "tasks-refresh"@[1]);
    }
    if has_prefix("order-refresh"@, "personal-"@) {
        assert("order-refresh"@.subrange(0, 9)[0] == "order-refresh"@[0]);
    }
    if has_prefix("order-refresh"@, "template-"@) {
        assert("order-refresh"@.subrange(0, 9)[0] == "order-refresh"@[0]);
    }
    if has_prefix("team-create"@, "personal-"@) {
        assert("team-create"@.subrange(0, 9)[0] == "team-create"@[0]);
    }
    if has_prefix("team-create"@, "template-"@) {
        assert("team-create"@.subrange(0, 9)[2] == "team-create"@[2]);
    }
    if has_prefix("team-join"@, "personal-"@) {
        assert("team-join"@.subrange(0, 9)[0] == "team-join"@[0]);
    }
    if has_prefix("team-join"@, "template-"@) {
        assert("team-join"@.subrange(0, 9)[2] == "team-join"@[2]);
    }
    if has_prefix("invite-create"@, "personal-"@) {
        assert("invite-create"@.subrange(0, 9)[0] == "invite-create"@[0]);
    }
    if has_prefix("invite-create"@, "template-"@) {
        assert("invite-create"@.subrange(0, 9)[0] == "invite-create"@[0]);
    }
    if has_prefix("invite-revoke"@, "personal-"@) {
        assert("invite-revoke"@.subrange(0, 9)[0] == "invite-revoke"@[0]);
    }
    if has_prefix("invite-revoke"@, "template-"@) {
        assert("invite-revoke"@.subrange(0, 9)[0] == "invite-revoke"@[0]);
    }
    if has_prefix("member-remove"@, "personal-"@) {
        assert("member-remove"@.subrange(0, 9)[0] == "member-remove"@[0]);
    }
    if has_prefix("member-remove"@, "template-"@) {
        assert("member-remove"@.subrange(0, 9)[0] == "member-remove"@[0]);
    }
    if has_prefix("assets-refresh"@, "personal-"@) {
        assert("assets-refresh"@.subrange(0, 9)[0] == "assets-refresh"@[0]);
    }
    if has_prefix("assets-refresh"@, "template-"@) {
        assert("assets-refresh"@.subrange(0, 9)[0] == "assets-refresh"@[0]);
    }
    if has_prefix("members-refresh"@, "personal-"@) {
        assert("members-refresh"@.subrange(0, 9)[0] == "members-refresh"@[0]);
    }
    if has_prefix("members-refresh"@, "template-"@) {
        assert("members-refresh"@.subrange(0, 9)[0] == "members-refresh"@[0]);
    }
    if has_prefix("asset-delete"@, "personal-"@) {
        assert("asset-delete"@.subrange(0, 9)[0] == "asset-delete"@[0]);
    }
    if has_prefix("asset-delete"@, "template-"@) {
        assert("asset-delete"@.subrange(0, 9)[0] == "asset-delete"@[0]);
    }
    if has_prefix("asset-restore"@, "personal-"@) {
        assert("asset-restore"@.subrange(0, 9)[0] == "asset-restore"@[0]);
    }
    if has_prefix("asset-restore"@, "template-"@) {
        assert("asset-restore"@.subrange(0, 9)[0] == "asset-restore"@[0]);
    }
    if has_prefix("export-copy-cancel"@, "personal-"@) {
        assert("export-copy-cancel"@.subrange(0, 9)[0] == "export-copy-cancel"@[0]);
    }
    if has_prefix("export-copy-cancel"@, "template-"@) {
        assert("export-copy-cancel"@.subrange(0, 9)[0] == "export-copy-cancel"@[0]);
    }
    if has_prefix("export-copy-close"@, "personal-"@) {
        assert("export-copy-close"@.subrange(0, 9)[0] == "export-copy-close"@[0]);
    }
    if has_prefix("export-copy-close"@, "template-"@) {
        assert("export-copy-close"@.subrange(0, 9)[0] == "export-copy-close"@[0]);
    }
    if has_prefix("export-copy-retry"@, "personal-"@) {
        assert("export-copy-retry"@.subrange(0, 9)[0] == "export-copy-retry"@[0]);
    }
    if has_prefix("export-copy-retry"@, "template-"@) {
        assert("export-copy-retry"@.subrange(0, 9)[0] == "export-copy-retry"@[0]);
    }
    if has_prefix("project-assets"@, "personal-"@) {
        assert("project-assets"@.subrange(0, 9)[1] == "project-assets"@[1]);
    }
    if has_prefix("project-assets"@, "template-"@) {
        assert("project-assets"@.subrange(0, 9)[0] == "project-assets"@[0]);
    }
    if has_prefix("canvas-assets"@, "personal-"@) {
        assert("canvas-assets"@.subrange(0, 9)[0] == "canvas-assets"@[0]);
    }
    if has_prefix("canvas-assets"@, "template-"@) {
        assert("canvas-assets"@.subrange(0, 9)[0] == "canvas-assets"@[0]);
    }
    if has_prefix("reference-team"@, "personal-"@) {
        assert("reference-team"@.subrange(0, 9)[0] == "reference-team"@[0]);
    }
    if has_prefix("reference-team"@, "template-"@) {
        assert("reference-team"@.subrange(0, 9)[0] == "reference-team"@[0]);
    }
    if has_prefix("asset-picker-toggle"@, "personal-"@) {
        assert("asset-picker-toggle"@.subrange(0, 9)[0] == "asset-picker-toggle"@[0]);
    }
    if has_prefix("asset-picker-toggle"@, "template-"@) {
        assert("asset-picker-toggle"@.subrange(0, 9)[0] == "asset-picker-toggle"@[0]);
    }
    if has_prefix("asset-picker-confirm"@, "personal-"@) {
        assert("asset-picker-confirm"@.subrange(0, 9)[0] == "asset-picker-confirm"@[0]);
    }
    if has_prefix("asset-picker-confirm"@, "template-"@) {
        assert("asset-picker-confirm"@.subrange(0, 9)[0] == "asset-picker-confirm"@[0]);
    }
    if has_prefix("asset-picker-cancel"@, "personal-"@) {
        assert("asset-picker-cancel"@.subrange(0, 9)[0] == "asset-picker-cancel"@[0]);
    }
    if has_prefix("asset-picker-cancel"@, "template-"@) {
        assert("asset-picker-cancel"@.subrange(0, 9)[0] == "asset-picker-cancel"@[0]);
    }
    if has_prefix("reference-source"@, "personal-"@) {
        assert("reference-source"@.subrange(0, 9)[0] == "reference-source"@[0]);
    }
    if has_prefix("reference-source"@, "template-"@) {
        assert("reference-source"@.subrange(0, 9)[0] == "reference-source"@[0]);
    }
    if has_prefix("reference-browse"@, "personal-"@) {
        assert("reference-browse"@.subrange(0, 9)[0] == "reference-browse"@[0]);
    }
    if has_prefix("reference-browse"@, "template-"@) {
        assert("reference-browse"@.subrange(0, 9)[0] == "reference-browse"@[0]);
    }
    if has_prefix("asset-upload"@, "personal-"@) {
        assert("asset-upload"@.subrange(0, 9)[0] == "asset-upload"@[0]);
    }
    if has_prefix("asset-upload"@, "template-"@) {
        assert("asset-upload"@.subrange(0, 9)[0] == "asset-upload"@[0]);
    }
    if has_prefix("reference-drop"@, "personal-"@) {
        assert("reference-drop"@.subrange(0, 9)[0] == "reference-drop"@[0]);
    }
    if has_prefix("reference-drop"@, "template-"@) {
        assert("reference-drop"@.subrange(0, 9)[0] == "reference-drop"@[0]);
    }
    if has_prefix("reference-remove"@, "personal-"@) {
        assert("reference-remove"@.subrange(0, 9)[0] == "reference-remove"@[0]);
    }
    if has_prefix("reference-remove"@, "template-"@) {
        assert("reference-remove"@.subrange(0, 9)[0] == "reference-remove"@[0]);
    }
    if has_prefix("reference-mention-open"@, "personal-"@) {
        assert("reference-mention-open"@.subrange(0, 9)[0] == "reference-mention-open"@[0]);
    }
    if has_prefix("reference-mention-open"@, "template-"@) {
        assert("reference-mention-open"@.subrange(0, 9)[0] == "reference-mention-open"@[0]);
    }
    if has_prefix("reference-mention"@, "personal-"@) {
        assert("reference-mention"@.subrange(0, 9)[0] == "reference-mention"@[0]);
    }
    if has_prefix("reference-mention"@, "template-"@) {
        assert("reference-mention"@.subrange(0, 9)[0] == "reference-mention"@[0]);
    }
    if has_prefix("reference-preview"@, "personal-"@) {
        assert("reference-preview"@.subrange(0, 9)[0] == "reference-preview"@[0]);
    }
    if has_prefix("reference-preview"@, "template-"@) {
        assert("reference-preview"@.subrange(0, 9)[0] == "reference-preview"@[0]);
    }
    if has_prefix("reference-retry"@, "personal-"@) {
        assert("reference-retry"@.subrange(0, 9)[0] == "reference-retry"@[0]);
    }
    if has_prefix("reference-retry"@, "template-"@) {
        assert("reference-retry"@.subrange(0, 9)[0] == "reference-retry"@[0]);
    }
    if has_prefix("reference-replace"@, "personal-"@) {
        assert("reference-replace"@.subrange(0, 9)[0] == "reference-replace"@[0]);
    }
    if has_prefix("reference-replace"@, "template-"@) {
        assert("reference-replace"@.subrange(0, 9)[0] == "reference-replace"@[0]);
    }
    if has_prefix("asset-download"@, "personal-"@) {
        assert("asset-download"@.subrange(0, 9)[0] == "asset-download"@[0]);
    }
    if has_prefix("asset-download"@, "template-"@) {
        assert("asset-download"@.subrange(0, 9)[0] == "asset-download"@[0]);
    }
    if has_prefix("asset-reference"@, "personal-"@) {
        assert("asset-reference"@.subrange(0, 9)[0] == "asset-reference"@[0]);
    }
    if has_prefix("asset-reference"@, "template-"@) {
        assert("asset-reference"@.subrange(0, 9)[0] == "asset-reference"@[0]);
    }
    if has_prefix("asset-import"@, "personal-"@) {
        assert("asset-import"@.subrange(0, 9)[0] == "asset-import"@[0]);
    }
    if has_prefix("asset-import"@, "template-"@) {
        assert("asset-import"@.subrange(0, 9)[0] == "asset-import"@[0]);
    }
    if has_prefix("asset-canvas"@, "personal-"@) {
        assert("asset-canvas"@.subrange(0, 9)[0] == "asset-canvas"@[0]);
    }
    if has_prefix("asset-canvas"@, "template-"@) {
        assert("asset-canvas"@.subrange(0, 9)[0] == "asset-canvas"@[0]);
    }
    if has_prefix("asset-preview"@, "personal-"@) {
        assert("asset-preview"@.subrange(0, 9)[0] == "asset-preview"@[0]);
    }
    if has_prefix("asset-preview"@, "template-"@) {
        assert("asset-preview"@.subrange(0, 9)[0] == "asset-preview"@[0]);
    }
    if has_prefix("task-preview-open"@, "personal-"@) {
        assert("task-preview-open"@.subrange(0, 9)[0] == "task-preview-open"@[0]);
    }
    if has_prefix("task-preview-open"@, "template-"@) {
        assert("task-preview-open"@.subrange(0, 9)[1] == "task-preview-open"@[1]);
    }
    if has_prefix("media-preview-action"@, "personal-"@) {
        assert("media-preview-action"@.subrange(0, 9)[0] == "media-preview-action"@[0]);
    }
    if has_prefix("media-preview-action"@, "template-"@) {
        assert("media-preview-action"@.subrange(0, 9)[0] == "media-preview-action"@[0]);
    }
    if has_prefix("creator-mode"@, "personal-"@) {
        assert("creator-mode"@.subrange(0, 9)[0] == "creator-mode"@[0]);
    }
    if has_prefix("creator-mode"@, "template-"@) {
        assert("creator-mode"@.subrange(0, 9)[0] == "creator-mode"@[0]);
    }
    if has_prefix("local-folder-browse"@, "personal-"@) {
        assert("local-folder-browse"@.subrange(0, 9)[0] == "local-folder-browse"@[0]);
    }
    if has_prefix("local-folder-browse"@, "template-"@) {
        assert("local-folder-browse"@.subrange(0, 9)[0] == "local-folder-browse"@[0]);
    }
}

/// An action that a group takes is not one of the groups before it.
proof fn groups_are_apart(c: ClientView, w: SurroundingsView, id: Seq<char>)
    ensures
        project_acted(c, w, "task-selection-mode"@, id) is None,
        project_acted(c, w, "task-select-toggle"@, id) is None,
        project_acted(c, w, "task-canvas"@, id) is None,
        project_acted(c, w, "task-save-team"@, id) is None,
        project_acted(c, w, "task-batch-confirm-delete"@, id) is None,
        project_acted(c, w, "task-batch-cancel-delete"@, id) is None,
        project_acted(c, w, "auth-close"@, id) is None
            && task_acted(c, w.present, "auth-close"@, id) is None,
        project_acted(c, w, "change-password"@, id) is None
            && task_acted(c, w.present, "change-password"@, id) is None,
        project_acted(c, w, "logout"@, id) is None
            && task_acted(c, w.present, "logout"@, id) is None
            && auth_acted(c, "logout"@, id) is None,
        project_acted(c, w, "purchase"@, id) is None
            && task_acted(c, w.present, "purchase"@, id) is None
            && auth_acted(c, "purchase"@, id) is None,
        project_acted(c, w, "order-refresh"@, id) is None
            && task_acted(c, w.present, "order-refresh"@, id) is None
            && auth_acted(c, "order-refresh"@, id) is None,
        project_acted(c, w, "team-create"@, id) is None
            && task_acted(c, w.present, "team-create"@, id) is None
            && auth_acted(c, "team-create"@, id) is None,
        project_acted(c, w, "team-join"@, id) is None
            && task_acted(c, w.present, "team-join"@, id) is None
            && auth_acted(c, "team-join"@, id) is None,
        project_acted(c, w, "invite-create"@, id) is None
            && task_acted(c, w.present, "invite-create"@, id) is None
            && auth_acted(c, "invite-create"@, id) is None,
        project_acted(c, w, "invite-revoke"@, id) is None
            && task_acted(c, w.present, "invite-revoke"@, id) is None
            && auth_acted(c, "invite-revoke"@, id) is None,
        project_acted(c, w, "member-remove"@, id) is None
            && task_acted(c, w.present, "member-remove"@, id) is None
            && auth_acted(c, "member-remove"@, id) is None,
        project_acted(c, w, "asset-delete"@, id) is None
            && task_acted(c, w.present, "asset-delete"@, id) is None
            && auth_acted(c, "asset-delete"@, id) is None,
        project_acted(c, w, "asset-restore"@, id) is None
            && task_acted(c, w.present, "asset-restore"@, id) is None
            && auth_acted(c, "asset-restore"@, id) is None,
        project_acted(c, w, "project-assets"@, id) is None
            && task_acted(c, w.present, "project-assets"@, id) is None
            && auth_acted(c, "project-assets"@, id) is None
            && service_acted(c, w, "project-assets"@, id) is None
            && crate::cloud::actions::export_acted(c, "project-assets"@) is None,
        project_acted(c, w, "canvas-assets"@, id) is None
            && task_acted(c, w.present, "canvas-assets"@, id) is None
            && auth_acted(c, "canvas-assets"@, id) is None
            && service_acted(c, w, "canvas-assets"@, id) is None
            && crate::cloud::actions::export_acted(c, "canvas-assets"@) is None,
        project_acted(c, w, "reference-team"@, id) is None
            && task_acted(c, w.present, "reference-team"@, id) is None
            && auth_acted(c, "reference-team"@, id) is None
            && service_acted(c, w, "reference-team"@, id) is None
            && crate::cloud::actions::export_acted(c, "reference-team"@) is None,
        project_acted(c, w, "asset-picker-toggle"@, id) is None
            && task_acted(c, w.present, "asset-picker-toggle"@, id) is None
            && auth_acted(c, "asset-picker-toggle"@, id) is None
            && service_acted(c, w, "asset-picker-toggle"@, id) is None
            && crate::cloud::actions::export_acted(c, "asset-picker-toggle"@) is None,
        project_acted(c, w, "asset-picker-confirm"@, id) is None
            && task_acted(c, w.present, "asset-picker-confirm"@, id) is None
            && auth_acted(c, "asset-picker-confirm"@, id) is None
            && service_acted(c, w, "asset-picker-confirm"@, id) is None
            && crate::cloud::actions::export_acted(c, "asset-picker-confirm"@) is None,
        project_acted(c, w, "asset-picker-cancel"@, id) is None
            && task_acted(c, w.present, "asset-picker-cancel"@, id) is None
            && auth_acted(c, "asset-picker-cancel"@, id) is None
            && service_acted(c, w, "asset-picker-cancel"@, id) is None
            && crate::cloud::actions::export_acted(c, "asset-picker-cancel"@) is None,
        project_acted(c, w, "reference-drop"@, id) is None
            && task_acted(c, w.present, "reference-drop"@, id) is None
            && auth_acted(c, "reference-drop"@, id) is None
            && service_acted(c, w, "reference-drop"@, id) is None
            && crate::cloud::actions::export_acted(c, "reference-drop"@) is None
            && picker_acted(c, w, "reference-drop"@, id) is None,
        project_acted(c, w, "reference-remove"@, id) is None
            && task_acted(c, w.present, "reference-remove"@, id) is None
            && auth_acted(c, "reference-remove"@, id) is None
            && service_acted(c, w, "reference-remove"@, id) is None
            && crate::cloud::actions::export_acted(c, "reference-remove"@) is None
            && picker_acted(c, w, "reference-remove"@, id) is None,
        project_acted(c, w, "reference-mention"@, id) is None
            && task_acted(c, w.present, "reference-mention"@, id) is None
            && auth_acted(c, "reference-mention"@, id) is None
            && service_acted(c, w, "reference-mention"@, id) is None
            && crate::cloud::actions::export_acted(c, "reference-mention"@) is None
            && picker_acted(c, w, "reference-mention"@, id) is None,
        project_acted(c, w, "generate"@, id) is None
            && task_acted(c, w.present, "generate"@, id) is None
            && auth_acted(c, "generate"@, id) is None
            && service_acted(c, w, "generate"@, id) is None
            && crate::cloud::actions::export_acted(c, "generate"@) is None
            && picker_acted(c, w, "generate"@, id) is None
            && reference_acted(c, w.present, "generate"@, id) is None,
        project_acted(c, w, "creator-mode"@, id) is None
            && task_acted(c, w.present, "creator-mode"@, id) is None
            && auth_acted(c, "creator-mode"@, id) is None
            && service_acted(c, w, "creator-mode"@, id) is None
            && crate::cloud::actions::export_acted(c, "creator-mode"@) is None
            && picker_acted(c, w, "creator-mode"@, id) is None
            && reference_acted(c, w.present, "creator-mode"@, id) is None,
        project_acted(c, w, "local-folder-browse"@, id) is None
            && task_acted(c, w.present, "local-folder-browse"@, id) is None
            && auth_acted(c, "local-folder-browse"@, id) is None
            && service_acted(c, w, "local-folder-browse"@, id) is None
            && crate::cloud::actions::export_acted(c, "local-folder-browse"@) is None
            && picker_acted(c, w, "local-folder-browse"@, id) is None
            && reference_acted(c, w.present, "local-folder-browse"@, id) is None,
{
    actions_differ();
}

/// What is done with a team is asked of the team that is chosen: people are
/// invited, invitations taken back, members and files removed, and files
/// brought back, each by its own request.
pub proof fn teams_are_asked_for_what_is_wanted(
    c: ClientView,
    w: SurroundingsView,
    id: Seq<char>,
    fresh: Seq<char>,
)
    requires
        team_of(c.team).len() > 0,
    ensures
        ({
            let home = "/api/teams/"@ + team_of(c.team);
            &&& acted(c, w, "invite-create"@, id, fresh) == (
                c,
                seq![
                    StepView::Job(
                        "invite"@,
                        plain_request("POST"@, home + "/invites"@ + ""@, JsonModel::Null),
                    ),
                ],
            )
            &&& acted(c, w, "invite-revoke"@, id, fresh) == (
                c,
                seq![
                    StepView::Job(
                        "invite-revoke"@,
                        plain_request(
                            "DELETE"@,
                            home + "/invites/"@ + c.team.invite_id,
                            JsonModel::Null,
                        ),
                    ),
                ],
            )
            &&& acted(c, w, "member-remove"@, id, fresh) == (
                c,
                seq![
                    StepView::Job(
                        "member-remove"@,
                        plain_request("DELETE"@, home + "/members/"@ + id, JsonModel::Null),
                    ),
                ],
            )
            &&& acted(c, w, "asset-delete"@, id, fresh) == (
                c,
                seq![
                    StepView::Job(
                        "asset-change"@,
                        plain_request("DELETE"@, home + "/assets/"@ + id, JsonModel::Null),
                    ),
                ],
            )
            &&& acted(c, w, "asset-restore"@, id, fresh) == (
                c,
                seq![
                    StepView::Job(
                        "asset-change"@,
                        plain_request(
                            "POST"@,
                            home + "/assets/"@ + id + "/restore"@,
                            JsonModel::Null,
                        ),
                    ),
                ],
            )
        }),
{
    actions_differ();
    actions_are_plain();
    groups_are_apart(c, w, id);
    assert(acted(c, w, "invite-create"@, id, fresh).1 =~= seq![
        StepView::Job(
            "invite"@,
            plain_request(
                "POST"@,
                "/api/teams/"@ + team_of(c.team) + "/invites"@ + ""@,
                JsonModel::Null,
            ),
        ),
    ]);
}

/// A session is ended, a plan bought, an order looked at again, a team made and
/// a team joined, each by its own request and with what was chosen or typed.
pub proof fn accounts_are_asked_for_what_is_wanted(
    c: ClientView,
    w: SurroundingsView,
    id: Seq<char>,
    fresh: Seq<char>,
)
    ensures
        acted(c, w, "logout"@, id, fresh) == (
            c,
            seq![
                StepView::Job(
                    "logout"@,
                    plain_request(
                        "POST"@,
                        "/api/auth/logout"@,
                        JsonModel::Null,
                    ),
                ),
            ],
        ),
        acted(c, w, "purchase"@, id, fresh) == (
            c,
            seq![
                StepView::Job(
                    "purchase"@,
                    plain_request(
                        "POST"@,
                        "/api/orders"@,
                        JsonModel::Object(seq![("plan_id"@, JsonModel::Text(id))]),
                    ),
                ),
            ],
        ),
        acted(c, w, "order-refresh"@, id, fresh) == (
            c,
            seq![
                StepView::Job(
                    "order"@,
                    plain_request(
                        "POST"@,
                        "/api/orders/"@ + id + "/refresh"@,
                        JsonModel::Null,
                    ),
                ),
            ],
        ),
        acted(c, w, "team-create"@, id, fresh) == (
            c,
            seq![
                StepView::Job(
                    "team-create"@,
                    plain_request(
                        "POST"@,
                        "/api/teams"@,
                        JsonModel::Object(seq![("name"@, JsonModel::Text(w.team_name))]),
                    ),
                ),
            ],
        ),
        acted(c, w, "team-join"@, id, fresh) == (
            c,
            seq![
                StepView::Job(
                    "team-join"@,
                    plain_request(
                        "POST"@,
                        "/api/team-invites/accept"@,
                        JsonModel::Object(seq![("token"@, JsonModel::Text(invite_token(w.invite)))]),
                    ),
                ),
            ],
        ),
{
    actions_differ();
    actions_are_plain();
    groups_are_apart(c, w, id);
}

/// Results are chosen one by one, and a second click takes one back; leaving
/// the choice gives it up. What is removed is what was asked about, and calling
/// it off removes nothing.
pub proof fn results_are_chosen_and_removed(
    c: ClientView,
    w: SurroundingsView,
    id: Seq<char>,
    fresh: Seq<char>,
)
    ensures
        ({
            let mode = acted(c, w, "task-selection-mode"@, id, fresh).0.tasks;
            let click = acted(c, w, "task-select-toggle"@, id, fresh).0.tasks;
            let done = acted(c, w, "task-batch-confirm-delete"@, id, fresh);
            let off = acted(c, w, "task-batch-cancel-delete"@, id, fresh);
            &&& mode.selection_mode == !c.tasks.selection_mode
            &&& c.tasks.selection_mode ==> mode.selected == Set::<Seq<char>>::empty()
            &&& !c.tasks.selection_mode ==> mode.selected == c.tasks.selected
            &&& any(c.tasks.tasks, text_is("id"@, id)) ==> (click.selected.contains(id)
                <==> !c.tasks.selected.contains(id))
            &&& forall|other: Seq<char>|
                other != id ==> (#[trigger] click.selected.contains(other)
                    <==> c.tasks.selected.contains(other))
            &&& click.tasks == c.tasks.tasks && mode.tasks == c.tasks.tasks
            &&& off.0.tasks.pending_delete.len() == 0 && off.1 == seq![StepView::TaskDelete(None)]
            &&& c.tasks.pending_delete.len() > 0 ==> done.0.tasks.pending_delete.len() == 0
                && done.1.last() == StepView::Job(
                "tasks-trash"@,
                plain_request(
                    "POST"@,
                    "/api/generation/tasks/trash"@,
                    JsonModel::Object(
                        seq![
                            (
                                "ids"@,
                                JsonModel::Array(text_models(c.tasks.pending_delete)),
                            ),
                        ],
                    ),
                ),
            )
            &&& c.tasks.pending_delete.len() == 0 ==> done.0 == c && done.1.len() == 0
        }),
{
    actions_differ();
    actions_are_plain();
    groups_are_apart(c, w, id);
}

/// A result goes to a canvas where it is a picture, and to the team that is
/// chosen where there is one.
pub proof fn results_go_to_a_canvas_or_a_team(
    c: ClientView,
    w: SurroundingsView,
    id: Seq<char>,
    fresh: Seq<char>,
    i: int,
)
    requires
        first_where(c.tasks.tasks, text_is("id"@, id)) == Some(i),
    ensures
        c.tasks.tasks[i].text("kind"@) == "image"@ ==> acted(c, w, "task-canvas"@, id, fresh) == (
            c,
            task_fetched(c.tasks, w.present, id, "canvas"@, ""@, None),
        ),
        c.tasks.tasks[i].text("kind"@) != "image"@ ==> acted(
            c,
            w,
            "task-canvas"@,
            id,
            fresh,
        ).1.last() is Error,
        team_of(c.team).len() == 0 ==> acted(c, w, "task-save-team"@, id, fresh).1.last() is Error,
        team_of(c.team).len() > 0 ==> acted(c, w, "task-save-team"@, id, fresh) == (
            c,
            seq![StepView::Notice(""@)] + task_fetched(
                c.tasks,
                w.present,
                id,
                "save-team"@,
                team_of(c.team),
                None,
            ),
        ),
{
    actions_differ();
    actions_are_plain();
    groups_are_apart(c, w, id);
}

/// Files are picked for the timeline, for a canvas or as references, as the
/// button says; a choice that is called off is forgotten.
pub proof fn pickers_open_for_what_is_wanted(
    c: ClientView,
    w: SurroundingsView,
    id: Seq<char>,
    fresh: Seq<char>,
)
    ensures
        ({
            let opened = |purpose: Seq<char>|
                picker_begun(
                    c.picker,
                    c.team,
                    purpose,
                    0,
                    c.studio.form.mode,
                    c.studio.signed_in,
                );
            let off = acted(c, w, "asset-picker-cancel"@, id, fresh).0.picker;
            &&& acted(c, w, "project-assets"@, id, fresh).0.picker == opened("import"@).0
            &&& acted(c, w, "canvas-assets"@, id, fresh).0.picker == opened("canvas"@).0
            &&& acted(c, w, "reference-team"@, id, fresh).0.picker == opened("reference"@).0
            &&& acted(c, w, "asset-picker-toggle"@, id, fresh).0.picker == picker_toggled(
                c.picker,
                c.personal.assets,
                c.team,
                id,
            ).0
            &&& !off.open && off.selected.len() == 0 && off.count == 0 && off.batch is None
        }),
{
    actions_differ();
    actions_are_plain();
    groups_are_apart(c, w, id);
}

/// A file that is dropped on the references is sent as one; a reference is
/// taken out, or mentioned, by its own identity.
pub proof fn references_are_dropped_removed_and_mentioned(
    c: ClientView,
    w: SurroundingsView,
    id: Seq<char>,
    fresh: Seq<char>,
)
    ensures
        acted(c, w, "reference-drop"@, id, fresh) == (
            c,
            seq![StepView::Upload(id, "generation_input"@)],
        ),
        acted(c, w, "reference-remove"@, id, fresh) == reference_dropped(c, id),
        acted(c, w, "reference-mention"@, id, fresh) == reference_mentioned(c, id),
{
    actions_differ();
    actions_are_plain();
    groups_are_apart(c, w, id);
}

/// A generation is asked for with the key that is at hand; the mode is pictures
/// or videos and nothing else; a folder is asked for by its dialog.
pub proof fn buttons_of_the_form_do_what_they_say(
    c: ClientView,
    w: SurroundingsView,
    id: Seq<char>,
    fresh: Seq<char>,
)
    ensures
        acted(c, w, "generate"@, id, fresh).0.studio == generation_asked(c.studio, fresh).0,
        acted(c, w, "generate"@, id, fresh).1 == generation_asked(c.studio, fresh).1,
        parsed_i32(id) matches Some(n) ==> acted(c, w, "creator-mode"@, id, fresh).1[0]
            == StepView::CreatorMode(
            if n <= 0 {
                0
            } else {
                1
            },
        ),
        parsed_i32(id) is None ==> acted(c, w, "creator-mode"@, id, fresh).1.len() == 0,
        acted(c, w, "local-folder-browse"@, id, fresh) == (c, seq![StepView::PickFolder]),
{
    actions_differ();
    actions_are_plain();
    groups_are_apart(c, w, id);
}

/// The form of the account is not closed while it waits for an answer; when it
/// is closed nothing secret stays in it. A new password is asked for with the
/// address of the account.
pub proof fn account_forms_are_closed_and_opened(
    c: ClientView,
    w: SurroundingsView,
    id: Seq<char>,
    fresh: Seq<char>,
)
    ensures
        ({
            let closed = acted(c, w, "auth-close"@, id, fresh).0;
            let changing = acted(c, w, "change-password"@, id, fresh).0;
            &&& c.auth.busy ==> closed == c
            &&& !c.auth.busy ==> !closed.auth.open && closed.auth.password.len() == 0
                && closed.auth.password_confirm.len() == 0 && closed.auth.token.len() == 0
                && closed.auth.email == c.auth.email
            &&& changing.auth.open && changing.auth.mode == 2 && changing.auth.email
                == c.account.email
        }),
{
    actions_differ();
    actions_are_plain();
    groups_are_apart(c, w, id);
    reveal_strlit("");
}

/// A link of an invitation is cut down to its token, and a token is taken as
/// it is.
pub proof fn invitations_are_cut_down_to_their_token(raw: Seq<char>, token: Seq<char>)
    ensures
        trimmed(raw) == "seecut://team-invite/"@ + token ==> invite_token(raw) == token,
        !has_prefix(trimmed(raw), "seecut://team-invite/"@) ==> invite_token(raw) == trimmed(raw),
{
    let link = "seecut://team-invite/"@;
    let full = link + token;
    assert(full.subrange(0, link.len() as int) =~= link);
    assert(full.subrange(link.len() as int, full.len() as int) =~= token);
}

} // verus!
