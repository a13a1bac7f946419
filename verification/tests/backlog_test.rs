use q_body::backlog::{
    archive_markdown, extract_date, inline_title, is_expired, parse_backlog, plan_drain,
    BacklogEntry, Date, DrainPlan, EntryStatus,
};

fn d(y: i32, m: u32, day: u32) -> Date {
    Date::from_ymd_opt(y, m, day).unwrap()
}

#[test]
fn test_status_parse_variants() {
    assert_eq!(EntryStatus::parse("PENDING"), EntryStatus::Pending);
    assert_eq!(EntryStatus::parse("DONE-D @ 2026-09-02"), EntryStatus::DoneD);
    assert_eq!(EntryStatus::parse("DONE-B @ 2026-08-18"), EntryStatus::DoneB);
    assert_eq!(EntryStatus::parse("DEFERRED-to-Cron-B (deadline)"), EntryStatus::Deferred);
    assert_eq!(EntryStatus::parse("DONE (09-04 自检执行)"), EntryStatus::DoneD);
    assert_eq!(EntryStatus::parse("不知道"), EntryStatus::Other);
}

#[test]
fn test_extract_date_basic_and_guard() {
    assert_eq!(extract_date("### 2026-08-30 — P0"), Some(d(2026, 8, 30)));
    assert_eq!(extract_date("无日期行"), None);
    assert_eq!(extract_date("id=12026-08-30x"), None, "长数字串中部不得截出假日期");
    assert_eq!(extract_date("borrow 备注含 2026-09-04 日期"), Some(d(2026, 9, 4)));
}

#[test]
fn test_is_expired_boundary() {
    assert!(!is_expired(d(2026, 8, 29), d(2026, 9, 5), 7));
    assert!(is_expired(d(2026, 8, 28), d(2026, 9, 5), 7));
}

const FIXTURE: &str = "\
# Q-Body Backlog

### 2026-08-29 — P0

**来源**：c197a87c / x.md

**状态**：PENDING

- P1: skills.rs census 测试 — 借鉴：yoo #857
- ~~P0: 已消化项~~ [DONE-D @ 2026-08-31] — 见 issue #94

---

### 2026-08-31 — P0

**状态**：PENDING

- P0: Cron D 新鲜度校验前置，输入不新鲜直接 exit — 借鉴：yoo #866

---

### 2026-09-04 — P0

**状态**：PENDING

P0: backlog 水位治理 — 只追加不排水，借鉴 yoyo drain 模式

**借鉴**: yoo drain

---

### 2026-09-01 — P0

**状态**：DONE-D @ 2026-09-02

- P0: 已消化 section 内联项 — 借鉴：yoo #873
";

#[test]
fn test_parse_backlog_pending_only_and_dedup() {
    let entries = parse_backlog(FIXTURE);
    assert_eq!(entries.len(), 3);
    assert_eq!(entries[0].date, d(2026, 8, 29));
    assert_eq!(entries[0].title, "P1: skills.rs census 测试");
    assert_eq!(entries[1].date, d(2026, 8, 31));
    assert_eq!(entries[1].title, "P0: Cron D 新鲜度校验前置，输入不新鲜直接 exit");
    assert_eq!(entries[2].date, d(2026, 9, 4));
    assert_eq!(entries[2].title, "P0: backlog 水位治理 — 只追加不排水");
    assert!(entries.iter().all(|e| e.status == EntryStatus::Pending));
}

#[test]
fn test_plan_drain_archive_keep_consume() {
    let entries = parse_backlog(FIXTURE);
    let today = d(2026, 9, 5);
    let plan = plan_drain(&entries, today, 7);
    assert!(plan.archive.is_empty());
    assert_eq!(plan.keep.len(), 3);
    assert_eq!(plan.consume.as_ref().unwrap().date, d(2026, 8, 29));
}

#[test]
fn test_plan_drain_expired_goes_to_archive() {
    let entries = parse_backlog(FIXTURE);
    let today = d(2026, 9, 8);
    let plan = plan_drain(&entries, today, 7);
    assert_eq!(plan.archive.len(), 2);
    assert_eq!(plan.keep.len(), 1);
    assert_eq!(plan.consume.as_ref().unwrap().date, d(2026, 9, 4));
    let md = archive_markdown(&plan.archive, today);
    assert!(md.contains("archived @ 2026-09-08"));
    assert!(md.contains("skills.rs census"));
}

#[test]
fn test_plan_drain_all_expired_means_no_consume() {
    let entries = vec![BacklogEntry {
        date: d(2026, 8, 1),
        title: "老条目".into(),
        status: EntryStatus::Pending,
    }];
    let plan = plan_drain(&entries, d(2026, 9, 5), 7);
    assert!(plan.consume.is_none());
    assert_eq!(plan.archive.len(), 1);
    assert!(plan.keep.is_empty());
}

#[test]
fn test_plan_drain_empty_input() {
    let plan = plan_drain(&[], d(2026, 9, 5), 7);
    assert_eq!(plan, DrainPlan::default());
}

#[test]
fn test_inline_title_strips_decorations() {
    assert_eq!(inline_title("~~P0: 划线标题 ~~"), "P0: 划线标题");
    assert_eq!(inline_title("P1: 失败链 — 借鉴：a/b — failover"), "P1: 失败链");
    assert_eq!(inline_title("- P0: 无借鉴尾巴"), "P0: 无借鉴尾巴");
}

#[test]
fn invalid_calendar_dates_are_refused() {
    assert!(Date::from_ymd_opt(2026, 2, 29).is_none());
    assert!(Date::from_ymd_opt(2024, 2, 29).is_some());
    assert!(Date::from_ymd_opt(2026, 13, 1).is_none());
    assert!(Date::from_ymd_opt(2026, 4, 31).is_none());
}

#[test]
fn day_count_difference_is_days_between() {
    assert_eq!(d(2026, 9, 5).day_count() - d(2026, 8, 29).day_count(), 7);
    assert_eq!(d(2025, 1, 1).day_count() - d(2024, 1, 1).day_count(), 366);
    assert!(d(2026, 8, 28).is_before(&d(2026, 8, 29)));
    assert!(!d(2026, 8, 29).is_before(&d(2026, 8, 29)));
}

#[test]
fn consecutive_dates_have_consecutive_day_counts() {
    let pairs = [
        (d(2024, 2, 28), d(2024, 2, 29)),
        (d(2024, 2, 29), d(2024, 3, 1)),
        (d(2023, 2, 28), d(2023, 3, 1)),
        (d(1900, 2, 28), d(1900, 3, 1)),
        (d(2000, 2, 28), d(2000, 2, 29)),
        (d(2023, 12, 31), d(2024, 1, 1)),
        (d(-1, 12, 31), d(0, 1, 1)),
        (d(2026, 4, 30), d(2026, 5, 1)),
    ];
    for (a, b) in pairs.iter() {
        assert_eq!(b.day_count() - a.day_count(), 1);
        assert!(a.is_before(b));
        assert!(!b.is_before(a));
    }
}

#[test]
fn archive_markdown_lists_each_entry() {
    let entries = vec![
        BacklogEntry { date: d(2026, 8, 1), title: "a".into(), status: EntryStatus::Pending },
        BacklogEntry { date: d(2026, 8, 2), title: "b".into(), status: EntryStatus::Pending },
    ];
    let md = archive_markdown(&entries, d(2026, 9, 5));
    assert!(md.contains("2026-08-01"));
    assert!(md.contains("2026-08-02"));
    assert!(md.contains("archived @ 2026-09-05"));
}
