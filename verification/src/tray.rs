//! The tray menu: its items, in order, and the event each item id stands for.
use vstd::prelude::*;

use crate::text::{chars_eq_str, chars_of};

verus! {

/// What a tray menu item asks for.
#[derive(Debug, Clone, Copy, PartialEq, Eq, Structural)]
pub enum TrayEvent {
    Open,
    Refresh,
    OpenInBrowser,
    Start,
    Stop,
    Guide,
    OpenLogDir,
    Settings,
    About,
    Exit,
}

/// Number of items in the tray menu.
pub const MENU_ITEM_COUNT: usize = 10;

/// The id of the `i`-th menu item.
pub open spec fn item_id(i: int) -> Seq<char> {
    if i == 0 {
        "open"@
    } else if i == 1 {
        "refresh"@
    } else if i == 2 {
        "open_browser"@
    } else if i == 3 {
        "start"@
    } else if i == 4 {
        "stop"@
    } else if i == 5 {
        "guide"@
    } else if i == 6 {
        "log_dir"@
    } else if i == 7 {
        "settings"@
    } else if i == 8 {
        "about"@
    } else {
        "exit"@
    }
}

/// The label shown for the `i`-th menu item.
pub open spec fn item_label(i: int) -> Seq<char> {
    if i == 0 {
        "打开界面"@
    } else if i == 1 {
        "刷新界面"@
    } else if i == 2 {
        "在浏览器中打开界面"@
    } else if i == 3 {
        "启动服务"@
    } else if i == 4 {
        "停止服务"@
    } else if i == 5 {
        "新手指引"@
    } else if i == 6 {
        "打开日志目录"@
    } else if i == 7 {
        "设置…"@
    } else if i == 8 {
        "关于"@
    } else {
        "退出"@
    }
}

/// The event of the `i`-th menu item.
pub open spec fn item_event(i: int) -> TrayEvent {
    if i == 0 {
        TrayEvent::Open
    } else if i == 1 {
        TrayEvent::Refresh
    } else if i == 2 {
        TrayEvent::OpenInBrowser
    } else if i == 3 {
        TrayEvent::Start
    } else if i == 4 {
        TrayEvent::Stop
    } else if i == 5 {
        TrayEvent::Guide
    } else if i == 6 {
        TrayEvent::OpenLogDir
    } else if i == 7 {
        TrayEvent::Settings
    } else if i == 8 {
        TrayEvent::About
    } else {
        TrayEvent::Exit
    }
}

/// The event a menu id stands for; unknown ids stand for none.
pub open spec fn event_of(id: Seq<char>) -> Option<TrayEvent> {
    if id == "open"@ {
        Some(TrayEvent::Open)
    } else if id == "refresh"@ {
        Some(TrayEvent::Refresh)
    } else if id == "open_browser"@ {
        Some(TrayEvent::OpenInBrowser)
    } else if id == "start"@ {
        Some(TrayEvent::Start)
    } else if id == "stop"@ {
        Some(TrayEvent::Stop)
    } else if id == "guide"@ {
        Some(TrayEvent::Guide)
    } else if id == "log_dir"@ {
        Some(TrayEvent::OpenLogDir)
    } else if id == "settings"@ {
        Some(TrayEvent::Settings)
    } else if id == "about"@ {
        Some(TrayEvent::About)
    } else if id == "exit"@ {
        Some(TrayEvent::Exit)
    } else {
        None
    }
}

/// The menu items in order: (id, label).
pub fn menu_items() -> (r: Vec<(&'static str, &'static str)>)
    ensures
        r@.len() == MENU_ITEM_COUNT,
        forall|i: int| 0 <= i < r@.len() ==> (#[trigger] r@[i]).0@ == item_id(i) && r@[i].1@ == item_label(i),
{
    let r = vec![
        ("open", "打开界面"),
        ("refresh", "刷新界面"),
        ("open_browser", "在浏览器中打开界面"),
        ("start", "启动服务"),
        ("stop", "停止服务"),
        ("guide", "新手指引"),
        ("log_dir", "打开日志目录"),
        ("settings", "设置…"),
        ("about", "关于"),
        ("exit", "退出"),
    ];
    assert forall|i: int| 0 <= i < r@.len() implies (#[trigger] r@[i]).0@ == item_id(i) && r@[i].1@
        == item_label(i) by {
        if i == 0 {
        } else if i == 1 {
        } else if i == 2 {
        } else if i == 3 {
        } else if i == 4 {
        } else if i == 5 {
        } else if i == 6 {
        } else if i == 7 {
        } else if i == 8 {
        } else {
        }
    }
    r
}

/// The items after which the menu draws a separator (the ends of its three
/// groups: the window, the service, settings and leaving).
pub fn separator_after(id: &str) -> (r: bool)
    ensures
        r == (id@ == "open_browser"@ || id@ == "stop"@ || id@ == "settings"@),
{
    let v = chars_of(id);
    chars_eq_str(v.as_slice(), "open_browser") || chars_eq_str(v.as_slice(), "stop")
        || chars_eq_str(v.as_slice(), "settings")
}

/// The event of a menu id; `None` for an id the menu does not have.
pub fn tray_event_from_id(id: &str) -> (r: Option<TrayEvent>)
    ensures
        r == event_of(id@),
{
    let v = chars_of(id);
    let v = v.as_slice();
    if chars_eq_str(v, "open") {
        Some(TrayEvent::Open)
    } else if chars_eq_str(v, "refresh") {
        Some(TrayEvent::Refresh)
    } else if chars_eq_str(v, "open_browser") {
        Some(TrayEvent::OpenInBrowser)
    } else if chars_eq_str(v, "start") {
        Some(TrayEvent::Start)
    } else if chars_eq_str(v, "stop") {
        Some(TrayEvent::Stop)
    } else if chars_eq_str(v, "guide") {
        Some(TrayEvent::Guide)
    } else if chars_eq_str(v, "log_dir") {
        Some(TrayEvent::OpenLogDir)
    } else if chars_eq_str(v, "settings") {
        Some(TrayEvent::Settings)
    } else if chars_eq_str(v, "about") {
        Some(TrayEvent::About)
    } else if chars_eq_str(v, "exit") {
        Some(TrayEvent::Exit)
    } else {
        None
    }
}

/// Every menu item is mapped to its own event, and no two items share one: a
/// click on any item of the menu always does something, and the right thing.
pub proof fn lemma_every_menu_item_is_mapped(i: int, j: int)
    requires
        0 <= i < MENU_ITEM_COUNT,
        0 <= j < MENU_ITEM_COUNT,
    ensures
        event_of(item_id(i)) == Some(item_event(i)),
        i != j ==> item_event(i) != item_event(j),
{
    reveal_strlit("open");
    reveal_strlit("refresh");
    reveal_strlit("open_browser");
    reveal_strlit("start");
    reveal_strlit("stop");
    reveal_strlit("guide");
    reveal_strlit("log_dir");
    reveal_strlit("settings");
    reveal_strlit("about");
    reveal_strlit("exit");
    if i == 0 {
        assert(event_of("open"@) == Some(item_event(i)));
    } else if i == 1 {
        assert("refresh"@.len() != "open"@.len());
        assert(event_of("refresh"@) == Some(item_event(i)));
    } else if i == 2 {
        assert("open_browser"@.len() != "open"@.len());
        assert("open_browser"@.len() != "refresh"@.len());
        assert(event_of("open_browser"@) == Some(item_event(i)));
    } else if i == 3 {
        assert("start"@.len() != "open"@.len());
        assert("start"@.len() != "refresh"@.len());
        assert("start"@.len() != "open_browser"@.len());
        assert(event_of("start"@) == Some(item_event(i)));
    } else if i == 4 {
        assert("stop"@[0] != "open"@[0]);
        assert("stop"@.len() != "refresh"@.len());
        assert("stop"@.len() != "open_browser"@.len());
        assert("stop"@.len() != "start"@.len());
        assert(event_of("stop"@) == Some(item_event(i)));
    } else if i == 5 {
        assert("guide"@.len() != "open"@.len());
        assert("guide"@.len() != "refresh"@.len());
        assert("guide"@.len() != "open_browser"@.len());
        assert("guide"@[0] != "start"@[0]);
        assert("guide"@.len() != "stop"@.len());
        assert(event_of("guide"@) == Some(item_event(i)));
    } else if i == 6 {
        assert("log_dir"@.len() != "open"@.len());
        assert("log_dir"@[0] != "refresh"@[0]);
        assert("log_dir"@.len() != "open_browser"@.len());
        assert("log_dir"@.len() != "start"@.len());
        assert("log_dir"@.len() != "stop"@.len());
        assert("log_dir"@.len() != "guide"@.len());
        assert(event_of("log_dir"@) == Some(item_event(i)));
    } else if i == 7 {
        assert("settings"@.len() != "open"@.len());
        assert("settings"@.len() != "refresh"@.len());
        assert("settings"@.len() != "open_browser"@.len());
        assert("settings"@.len() != "start"@.len());
        assert("settings"@.len() != "stop"@.len());
        assert("settings"@.len() != "guide"@.len());
        assert("settings"@.len() != "log_dir"@.len());
        assert(event_of("settings"@) == Some(item_event(i)));
    } else if i == 8 {
        assert("about"@.len() != "open"@.len());
        assert("about"@.len() != "refresh"@.len());
        assert("about"@.len() != "open_browser"@.len());
        assert("about"@[0] != "start"@[0]);
        assert("about"@.len() != "stop"@.len());
        assert("about"@[0] != "guide"@[0]);
        assert("about"@.len() != "log_dir"@.len());
        assert("about"@.len() != "settings"@.len());
        assert(event_of("about"@) == Some(item_event(i)));
    } else {
        assert("exit"@[0] != "open"@[0]);
        assert("exit"@.len() != "refresh"@.len());
        assert("exit"@.len() != "open_browser"@.len());
        assert("exit"@.len() != "start"@.len());
        assert("exit"@[0] != "stop"@[0]);
        assert("exit"@.len() != "guide"@.len());
        assert("exit"@.len() != "log_dir"@.len());
        assert("exit"@.len() != "settings"@.len());
        assert("exit"@.len() != "about"@.len());
        assert(event_of("exit"@) == Some(item_event(i)));
    }
}

} // verus!
