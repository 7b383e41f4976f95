use vstd::prelude::*;

use crate::player::THEME_COUNT;
use crate::theme::{Theme, theme_at, theme_table};

verus! {

/// A colour of a theme that the style sheet uses.
#[derive(Clone, Copy)]
pub enum ColorSlot {
    Bg,
    Fg,
    Accent,
    Dim,
    SidebarBg,
    VizAccent,
}

/// A piece of the style sheet template: fixed text or a theme colour.
#[derive(Clone, Copy)]
pub enum CssPart {
    Text(&'static str),
    Color(ColorSlot),
}

/// The colour of a theme that a slot names.
pub open spec fn slot_color(t: Theme, slot: ColorSlot) -> &'static str {
    match slot {
        ColorSlot::Bg => t.bg,
        ColorSlot::Fg => t.fg,
        ColorSlot::Accent => t.accent,
        ColorSlot::Dim => t.dim,
        ColorSlot::SidebarBg => t.sidebar_bg,
        ColorSlot::VizAccent => t.viz_accent,
    }
}

/// The text of a template piece for a theme.
pub open spec fn part_text(p: CssPart, t: Theme) -> Seq<char> {
    match p {
        CssPart::Text(s) => s@,
        CssPart::Color(slot) => slot_color(t, slot)@,
    }
}

/// A template filled in with a theme's colours.
pub open spec fn rendered(parts: Seq<CssPart>, t: Theme) -> Seq<char>
    decreases parts.len(),
{
    if parts.len() == 0 {
        seq![]
    } else {
        rendered(parts.drop_last(), t) + part_text(parts.last(), t)
    }
}

/// The application's style sheet template.
pub open spec fn css_template() -> Seq<CssPart> {
    seq![
        CssPart::Text("\n* { -gtk-icon-transform: none; }\n\nwindow, \nwindow.background,\n.background,\n.main-container {\n background-color: "),
        CssPart::Color(ColorSlot::Bg),
        CssPart::Text(";\n}\n\n.content-area {\n background-color: transparent;\n}\n\n.sidebar { \n background-color: "),
        CssPart::Color(ColorSlot::SidebarBg),
        CssPart::Text("; \n border-radius: 8px; \n padding: 4px;\n}\n.sidebar * { color: "),
        CssPart::Color(ColorSlot::Fg),
        CssPart::Text("; }\n\nlabel { color: "),
        CssPart::Color(ColorSlot::Fg),
        CssPart::Text("; }\n\n.title-2 { \n color: "),
        CssPart::Color(ColorSlot::Accent),
        CssPart::Text("; \n font-size: 18px; \n font-weight: bold; \n}\n\n.now-playing {\n background: "),
        CssPart::Color(ColorSlot::SidebarBg),
        CssPart::Text(";\n border-radius: 8px;\n padding: 8px;\n}\n\n.album-art {\n border-radius: 6px;\n}\n\n.track-title {\n font-size: 16px;\n font-weight: bold;\n color: "),
        CssPart::Color(ColorSlot::Fg),
        CssPart::Text(";\n}\n\n.track-artist {\n font-size: 13px;\n color: "),
        CssPart::Color(ColorSlot::Dim),
        CssPart::Text(";\n}\n\n.viz-area {\n background: transparent;\n border-radius: 8px;\n}\n\n.lyrics-container { \n background: "),
        CssPart::Color(ColorSlot::SidebarBg),
        CssPart::Text(";\n border-radius: 8px; \n padding: 12px 16px;\n border: 1px solid "),
        CssPart::Color(ColorSlot::Dim),
        CssPart::Text("40;\n min-width: 400px;\n max-width: 400px;\n}\n\n.lyrics-current { \n color: "),
        CssPart::Color(ColorSlot::VizAccent),
        CssPart::Text("; \n font-size: 18px; \n font-weight: bold;\n}\n\n.lyrics-dim { \n color: "),
        CssPart::Color(ColorSlot::Dim),
        CssPart::Text("; \n font-size: 13px; \n opacity: 0.7;\n}\n\n.card { \n background-color: "),
        CssPart::Color(ColorSlot::SidebarBg),
        CssPart::Text("; \n border-radius: 8px; \n border: 1px solid "),
        CssPart::Color(ColorSlot::Dim),
        CssPart::Text("30;\n}\n\n.controls {\n padding: 4px;\n}\n\n.control-btn {\n background: transparent;\n color: "),
        CssPart::Color(ColorSlot::Fg),
        CssPart::Text(";\n border-radius: 50%;\n min-width: 40px;\n min-height: 40px;\n padding: 0;\n}\n\n.control-btn:hover {\n background: "),
        CssPart::Color(ColorSlot::Dim),
        CssPart::Text("40;\n}\n\n.control-btn.active {\n color: "),
        CssPart::Color(ColorSlot::Accent),
        CssPart::Text(";\n}\n\n.play-btn {\n background: "),
        CssPart::Color(ColorSlot::Accent),
        CssPart::Text(";\n color: "),
        CssPart::Color(ColorSlot::Bg),
        CssPart::Text(";\n border-radius: 50%;\n min-width: 56px;\n min-height: 56px;\n padding: 0;\n}\n\n.play-btn:hover {\n background: "),
        CssPart::Color(ColorSlot::VizAccent),
        CssPart::Text(";\n}\n\n.progress-scale {\n min-height: 8px;\n}\n\nscale trough {\n background-color: "),
        CssPart::Color(ColorSlot::Dim),
        CssPart::Text("40;\n border-radius: 4px;\n min-height: 8px;\n}\n\nscale highlight {\n background: "),
        CssPart::Color(ColorSlot::Accent),
        CssPart::Text(";\n border-radius: 4px;\n min-height: 8px;\n}\n\nscale slider {\n background: "),
        CssPart::Color(ColorSlot::Fg),
        CssPart::Text(";\n min-width: 16px;\n min-height: 16px;\n border-radius: 50%;\n}\n\n.volume-scale {\n min-width: 120px;\n}\n\n.volume-icon {\n background: transparent;\n color: "),
        CssPart::Color(ColorSlot::Fg),
        CssPart::Text(";\n}\n\n.dim-label { color: "),
        CssPart::Color(ColorSlot::Dim),
        CssPart::Text("; }\n\n.search-entry {\n background-color: "),
        CssPart::Color(ColorSlot::SidebarBg),
        CssPart::Text(";\n color: "),
        CssPart::Color(ColorSlot::Fg),
        CssPart::Text(";\n border-radius: 10px;\n border: 1px solid "),
        CssPart::Color(ColorSlot::Dim),
        CssPart::Text("40;\n padding: 8px 12px;\n min-height: 36px;\n}\n\n.search-entry:focus {\n border-color: "),
        CssPart::Color(ColorSlot::Accent),
        CssPart::Text(";\n}\n\n.navigation-sidebar { \n background-color: transparent; \n}\n\n.navigation-sidebar > row { \n border-radius: 8px; \n margin: 2px 0; \n background-color: transparent;\n padding: 4px;\n}\n\n.navigation-sidebar > row:selected { \n background: "),
        CssPart::Color(ColorSlot::Accent),
        CssPart::Text(";\n color: "),
        CssPart::Color(ColorSlot::Bg),
        CssPart::Text(";\n}\n\n.navigation-sidebar > row:selected label { \n color: "),
        CssPart::Color(ColorSlot::Bg),
        CssPart::Text("; \n}\n\n.navigation-sidebar > row:hover:not(:selected) { \n background-color: "),
        CssPart::Color(ColorSlot::Dim),
        CssPart::Text("20;\n}\n\n/* Playing track highlight */\n.navigation-sidebar > row.playing {\n background: "),
        CssPart::Color(ColorSlot::Accent),
        CssPart::Text("40;\n border-left: 3px solid "),
        CssPart::Color(ColorSlot::Accent),
        CssPart::Text(";\n}\n\n.navigation-sidebar > row.playing label {\n color: "),
        CssPart::Color(ColorSlot::Accent),
        CssPart::Text(";\n}\n\nscrolledwindow, list { \n background-color: transparent; \n}\n\nscrollbar { \n background-color: transparent; \n}\n\nscrollbar slider { \n background-color: "),
        CssPart::Color(ColorSlot::Dim),
        CssPart::Text("; \n border-radius: 4px; \n min-width: 6px;\n}\n\n.pill {\n background: "),
        CssPart::Color(ColorSlot::Bg),
        CssPart::Text(";\n color: "),
        CssPart::Color(ColorSlot::Fg),
        CssPart::Text(";\n border-radius: 16px;\n padding: 6px 14px;\n border: 1px solid "),
        CssPart::Color(ColorSlot::Dim),
        CssPart::Text("40;\n}\n\n.pill:hover {\n background: "),
        CssPart::Color(ColorSlot::Dim),
        CssPart::Text("30;\n}\n\n.viz-mode-btn {\n font-weight: bold;\n}\n\nbutton {\n background: transparent;\n color: "),
        CssPart::Color(ColorSlot::Fg),
        CssPart::Text(";\n border: none;\n}\n\nmenubutton > button {\n background: "),
        CssPart::Color(ColorSlot::SidebarBg),
        CssPart::Text(";\n border-radius: 50%;\n min-width: 36px;\n min-height: 36px;\n}\n\nmenubutton > button:hover {\n background: "),
        CssPart::Color(ColorSlot::Dim),
        CssPart::Text("40;\n}\n\nseparator { \n background-color: "),
        CssPart::Color(ColorSlot::Dim),
        CssPart::Text("30; \n}\n\npopover {\n background: "),
        CssPart::Color(ColorSlot::Bg),
        CssPart::Text(";\n border-radius: 8px;\n border: 1px solid "),
        CssPart::Color(ColorSlot::Dim),
        CssPart::Text("40;\n padding: 4px;\n}\n\npopover > contents {\n background: "),
        CssPart::Color(ColorSlot::Bg),
        CssPart::Text(";\n border-radius: 8px;\n}\n\npopover button {\n background: transparent;\n color: "),
        CssPart::Color(ColorSlot::Fg),
        CssPart::Text(";\n padding: 6px 12px;\n border-radius: 6px;\n}\n\npopover button:hover {\n background: "),
        CssPart::Color(ColorSlot::Accent),
        CssPart::Text("30;\n}\n\npopover label {\n color: "),
        CssPart::Color(ColorSlot::Fg),
        CssPart::Text(";\n}\n\n.status-bar {\n padding: 4px 8px;\n border-top: 1px solid "),
        CssPart::Color(ColorSlot::Dim),
        CssPart::Text("20;\n}\n\n.status-item {\n font-size: 11px;\n color: "),
        CssPart::Color(ColorSlot::Dim),
        CssPart::Text(";\n}\n\n.track-count {\n font-size: 12px;\n}\n\n.tab-box {\n background: "),
        CssPart::Color(ColorSlot::SidebarBg),
        CssPart::Text(";\n border-radius: 8px;\n padding: 2px;\n margin-bottom: 8px;\n}\n\n.tab-btn {\n background: transparent;\n color: "),
        CssPart::Color(ColorSlot::Dim),
        CssPart::Text(";\n border-radius: 6px;\n padding: 6px 12px;\n font-weight: 500;\n}\n\n.tab-btn.active {\n background: "),
        CssPart::Color(ColorSlot::Accent),
        CssPart::Text(";\n color: "),
        CssPart::Color(ColorSlot::Bg),
        CssPart::Text(";\n}\n\n.tab-btn:hover:not(.active) {\n background: "),
        CssPart::Color(ColorSlot::Dim),
        CssPart::Text("20;\n color: "),
        CssPart::Color(ColorSlot::Fg),
        CssPart::Text(";\n}\n\n.queue-list {\n background: transparent;\n}\n\n/* Track header styling */\n.track-header {\n padding: 4px 8px;\n border-bottom: 1px solid "),
        CssPart::Color(ColorSlot::Dim),
        CssPart::Text("30;\n}\n\n.header-label {\n font-size: 11px;\n font-weight: bold;\n color: "),
        CssPart::Color(ColorSlot::Dim),
        CssPart::Text(";\n}\n\n/* File tree styling */\n.file-tree {\n background: transparent;\n}\n\n.file-tree treeview {\n background: transparent;\n}\n\n.file-tree treeview:selected {\n background: "),
        CssPart::Color(ColorSlot::Accent),
        CssPart::Text(";\n color: "),
        CssPart::Color(ColorSlot::Bg),
        CssPart::Text(";\n}\n\n.file-tree treeview:hover:not(:selected) {\n background: "),
        CssPart::Color(ColorSlot::Dim),
        CssPart::Text("20;\n}\n\n/* Context menu buttons */\n.context-btn {\n text-align: left;\n}\n\n.context-btn.destructive {\n color: #ff4444;\n}\n\n/* Small buttons */\n.small-btn {\n min-width: 24px;\n min-height: 24px;\n padding: 0;\n}\n")
    ]
}

/// The style sheet template's pieces.
pub fn css_template_parts() -> (r: Vec<CssPart>)
    ensures
        r@ == css_template(),
{
    let r = vec![
        CssPart::Text("\n* { -gtk-icon-transform: none; }\n\nwindow, \nwindow.background,\n.background,\n.main-container {\n background-color: "),
        CssPart::Color(ColorSlot::Bg),
        CssPart::Text(";\n}\n\n.content-area {\n background-color: transparent;\n}\n\n.sidebar { \n background-color: "),
        CssPart::Color(ColorSlot::SidebarBg),
        CssPart::Text("; \n border-radius: 8px; \n padding: 4px;\n}\n.sidebar * { color: "),
        CssPart::Color(ColorSlot::Fg),
        CssPart::Text("; }\n\nlabel { color: "),
        CssPart::Color(ColorSlot::Fg),
        CssPart::Text("; }\n\n.title-2 { \n color: "),
        CssPart::Color(ColorSlot::Accent),
        CssPart::Text("; \n font-size: 18px; \n font-weight: bold; \n}\n\n.now-playing {\n background: "),
        CssPart::Color(ColorSlot::SidebarBg),
        CssPart::Text(";\n border-radius: 8px;\n padding: 8px;\n}\n\n.album-art {\n border-radius: 6px;\n}\n\n.track-title {\n font-size: 16px;\n font-weight: bold;\n color: "),
        CssPart::Color(ColorSlot::Fg),
        CssPart::Text(";\n}\n\n.track-artist {\n font-size: 13px;\n color: "),
        CssPart::Color(ColorSlot::Dim),
        CssPart::Text(";\n}\n\n.viz-area {\n background: transparent;\n border-radius: 8px;\n}\n\n.lyrics-container { \n background: "),
        CssPart::Color(ColorSlot::SidebarBg),
        CssPart::Text(";\n border-radius: 8px; \n padding: 12px 16px;\n border: 1px solid "),
        CssPart::Color(ColorSlot::Dim),
        CssPart::Text("40;\n min-width: 400px;\n max-width: 400px;\n}\n\n.lyrics-current { \n color: "),
        CssPart::Color(ColorSlot::VizAccent),
        CssPart::Text("; \n font-size: 18px; \n font-weight: bold;\n}\n\n.lyrics-dim { \n color: "),
        CssPart::Color(ColorSlot::Dim),
        CssPart::Text("; \n font-size: 13px; \n opacity: 0.7;\n}\n\n.card { \n background-color: "),
        CssPart::Color(ColorSlot::SidebarBg),
        CssPart::Text("; \n border-radius: 8px; \n border: 1px solid "),
        CssPart::Color(ColorSlot::Dim),
        CssPart::Text("30;\n}\n\n.controls {\n padding: 4px;\n}\n\n.control-btn {\n background: transparent;\n color: "),
        CssPart::Color(ColorSlot::Fg),
        CssPart::Text(";\n border-radius: 50%;\n min-width: 40px;\n min-height: 40px;\n padding: 0;\n}\n\n.control-btn:hover {\n background: "),
        CssPart::Color(ColorSlot::Dim),
        CssPart::Text("40;\n}\n\n.control-btn.active {\n color: "),
        CssPart::Color(ColorSlot::Accent),
        CssPart::Text(";\n}\n\n.play-btn {\n background: "),
        CssPart::Color(ColorSlot::Accent),
        CssPart::Text(";\n color: "),
        CssPart::Color(ColorSlot::Bg),
        CssPart::Text(";\n border-radius: 50%;\n min-width: 56px;\n min-height: 56px;\n padding: 0;\n}\n\n.play-btn:hover {\n background: "),
        CssPart::Color(ColorSlot::VizAccent),
        CssPart::Text(";\n}\n\n.progress-scale {\n min-height: 8px;\n}\n\nscale trough {\n background-color: "),
        CssPart::Color(ColorSlot::Dim),
        CssPart::Text("40;\n border-radius: 4px;\n min-height: 8px;\n}\n\nscale highlight {\n background: "),
        CssPart::Color(ColorSlot::Accent),
        CssPart::Text(";\n border-radius: 4px;\n min-height: 8px;\n}\n\nscale slider {\n background: "),
        CssPart::Color(ColorSlot::Fg),
        CssPart::Text(";\n min-width: 16px;\n min-height: 16px;\n border-radius: 50%;\n}\n\n.volume-scale {\n min-width: 120px;\n}\n\n.volume-icon {\n background: transparent;\n color: "),
        CssPart::Color(ColorSlot::Fg),
        CssPart::Text(";\n}\n\n.dim-label { color: "),
        CssPart::Color(ColorSlot::Dim),
        CssPart::Text("; }\n\n.search-entry {\n background-color: "),
        CssPart::Color(ColorSlot::SidebarBg),
        CssPart::Text(";\n color: "),
        CssPart::Color(ColorSlot::Fg),
        CssPart::Text(";\n border-radius: 10px;\n border: 1px solid "),
        CssPart::Color(ColorSlot::Dim),
        CssPart::Text("40;\n padding: 8px 12px;\n min-height: 36px;\n}\n\n.search-entry:focus {\n border-color: "),
        CssPart::Color(ColorSlot::Accent),
        CssPart::Text(";\n}\n\n.navigation-sidebar { \n background-color: transparent; \n}\n\n.navigation-sidebar > row { \n border-radius: 8px; \n margin: 2px 0; \n background-color: transparent;\n padding: 4px;\n}\n\n.navigation-sidebar > row:selected { \n background: "),
        CssPart::Color(ColorSlot::Accent),
        CssPart::Text(";\n color: "),
        CssPart::Color(ColorSlot::Bg),
        CssPart::Text(";\n}\n\n.navigation-sidebar > row:selected label { \n color: "),
        CssPart::Color(ColorSlot::Bg),
        CssPart::Text("; \n}\n\n.navigation-sidebar > row:hover:not(:selected) { \n background-color: "),
        CssPart::Color(ColorSlot::Dim),
        CssPart::Text("20;\n}\n\n/* Playing track highlight */\n.navigation-sidebar > row.playing {\n background: "),
        CssPart::Color(ColorSlot::Accent),
        CssPart::Text("40;\n border-left: 3px solid "),
        CssPart::Color(ColorSlot::Accent),
        CssPart::Text(";\n}\n\n.navigation-sidebar > row.playing label {\n color: "),
        CssPart::Color(ColorSlot::Accent),
        CssPart::Text(";\n}\n\nscrolledwindow, list { \n background-color: transparent; \n}\n\nscrollbar { \n background-color: transparent; \n}\n\nscrollbar slider { \n background-color: "),
        CssPart::Color(ColorSlot::Dim),
        CssPart::Text("; \n border-radius: 4px; \n min-width: 6px;\n}\n\n.pill {\n background: "),
        CssPart::Color(ColorSlot::Bg),
        CssPart::Text(";\n color: "),
        CssPart::Color(ColorSlot::Fg),
        CssPart::Text(";\n border-radius: 16px;\n padding: 6px 14px;\n border: 1px solid "),
        CssPart::Color(ColorSlot::Dim),
        CssPart::Text("40;\n}\n\n.pill:hover {\n background: "),
        CssPart::Color(ColorSlot::Dim),
        CssPart::Text("30;\n}\n\n.viz-mode-btn {\n font-weight: bold;\n}\n\nbutton {\n background: transparent;\n color: "),
        CssPart::Color(ColorSlot::Fg),
        CssPart::Text(";\n border: none;\n}\n\nmenubutton > button {\n background: "),
        CssPart::Color(ColorSlot::SidebarBg),
        CssPart::Text(";\n border-radius: 50%;\n min-width: 36px;\n min-height: 36px;\n}\n\nmenubutton > button:hover {\n background: "),
        CssPart::Color(ColorSlot::Dim),
        CssPart::Text("40;\n}\n\nseparator { \n background-color: "),
        CssPart::Color(ColorSlot::Dim),
        CssPart::Text("30; \n}\n\npopover {\n background: "),
        CssPart::Color(ColorSlot::Bg),
        CssPart::Text(";\n border-radius: 8px;\n border: 1px solid "),
        CssPart::Color(ColorSlot::Dim),
        CssPart::Text("40;\n padding: 4px;\n}\n\npopover > contents {\n background: "),
        CssPart::Color(ColorSlot::Bg),
        CssPart::Text(";\n border-radius: 8px;\n}\n\npopover button {\n background: transparent;\n color: "),
        CssPart::Color(ColorSlot::Fg),
        CssPart::Text(";\n padding: 6px 12px;\n border-radius: 6px;\n}\n\npopover button:hover {\n background: "),
        CssPart::Color(ColorSlot::Accent),
        CssPart::Text("30;\n}\n\npopover label {\n color: "),
        CssPart::Color(ColorSlot::Fg),
        CssPart::Text(";\n}\n\n.status-bar {\n padding: 4px 8px;\n border-top: 1px solid "),
        CssPart::Color(ColorSlot::Dim),
        CssPart::Text("20;\n}\n\n.status-item {\n font-size: 11px;\n color: "),
        CssPart::Color(ColorSlot::Dim),
        CssPart::Text(";\n}\n\n.track-count {\n font-size: 12px;\n}\n\n.tab-box {\n background: "),
        CssPart::Color(ColorSlot::SidebarBg),
        CssPart::Text(";\n border-radius: 8px;\n padding: 2px;\n margin-bottom: 8px;\n}\n\n.tab-btn {\n background: transparent;\n color: "),
        CssPart::Color(ColorSlot::Dim),
        CssPart::Text(";\n border-radius: 6px;\n padding: 6px 12px;\n font-weight: 500;\n}\n\n.tab-btn.active {\n background: "),
        CssPart::Color(ColorSlot::Accent),
        CssPart::Text(";\n color: "),
        CssPart::Color(ColorSlot::Bg),
        CssPart::Text(";\n}\n\n.tab-btn:hover:not(.active) {\n background: "),
        CssPart::Color(ColorSlot::Dim),
        CssPart::Text("20;\n color: "),
        CssPart::Color(ColorSlot::Fg),
        CssPart::Text(";\n}\n\n.queue-list {\n background: transparent;\n}\n\n/* Track header styling */\n.track-header {\n padding: 4px 8px;\n border-bottom: 1px solid "),
        CssPart::Color(ColorSlot::Dim),
        CssPart::Text("30;\n}\n\n.header-label {\n font-size: 11px;\n font-weight: bold;\n color: "),
        CssPart::Color(ColorSlot::Dim),
        CssPart::Text(";\n}\n\n/* File tree styling */\n.file-tree {\n background: transparent;\n}\n\n.file-tree treeview {\n background: transparent;\n}\n\n.file-tree treeview:selected {\n background: "),
        CssPart::Color(ColorSlot::Accent),
        CssPart::Text(";\n color: "),
        CssPart::Color(ColorSlot::Bg),
        CssPart::Text(";\n}\n\n.file-tree treeview:hover:not(:selected) {\n background: "),
        CssPart::Color(ColorSlot::Dim),
        CssPart::Text("20;\n}\n\n/* Context menu buttons */\n.context-btn {\n text-align: left;\n}\n\n.context-btn.destructive {\n color: #ff4444;\n}\n\n/* Small buttons */\n.small-btn {\n min-width: 24px;\n min-height: 24px;\n padding: 0;\n}\n")
    ];
    assert(r@ =~= css_template());
    r
}

fn slot_color_of(t: &Theme, slot: ColorSlot) -> (c: &'static str)
    ensures
        c == slot_color(*t, slot),
{
    match slot {
        ColorSlot::Bg => t.bg,
        ColorSlot::Fg => t.fg,
        ColorSlot::Accent => t.accent,
        ColorSlot::Dim => t.dim,
        ColorSlot::SidebarBg => t.sidebar_bg,
        ColorSlot::VizAccent => t.viz_accent,
    }
}

/// Fills a template in with a theme's colours.
pub fn render_css(parts: &Vec<CssPart>, t: &Theme) -> (r: String)
    ensures
        r@ == rendered(parts@, *t),
{
    let mut r = String::new();
    for i in 0..parts.len()
        invariant
            r@ == rendered(parts@.take(i as int), *t),
    {
        proof {
            assert(parts@.take(i + 1).drop_last() =~= parts@.take(i as int));
        }
        match parts[i] {
            CssPart::Text(s) => r.append(s),
            CssPart::Color(slot) => r.append(slot_color_of(t, slot)),
        }
    }
    proof {
        assert(parts@.take(parts.len() as int) =~= parts@);
    }
    r
}

/// The style sheet of the theme at `index`: the template filled in with the
/// theme's colours.
pub fn theme_css(index: usize) -> (r: String)
    requires
        index < THEME_COUNT,
    ensures
        r@ == rendered(css_template(), theme_table(index as int)),
{
    let parts = css_template_parts();
    let t = theme_at(index);
    render_css(&parts, &t)
}

} // verus!
