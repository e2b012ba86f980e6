use wecom_launcher::launch::{app_info, launch_precheck, single_result, BatchRun, SlotOutcome};
use wecom_launcher::models::{LaunchOptions, LaunchResult, SafeModeHealth};

fn ok_result(index: u8, message: &str) -> LaunchResult {
    LaunchResult { success: true, pid: Some(1000 + index as u32), message: message.to_string(), index }
}

fn health(ready: bool) -> SafeModeHealth {
    SafeModeHealth {
        platform_ok: true,
        is_admin: true,
        password_ok: ready,
        users: vec![],
        missing_users: vec![],
        ready,
        warnings: vec![],
        summary: if ready { "ok".into() } else { "not ready".into() },
    }
}

#[test]
fn batch_is_refused() {
    let mut o = LaunchOptions::default();
    o.windows_safe_mode = true;
    assert_eq!(BatchRun::start(o.clone(), "macos", None, true, &vec![]).err(), Some("安全模式仅支持 Windows".to_string()));
    assert_eq!(BatchRun::start(o.clone(), "windows", Some(&health(false)), true, &vec![]).err(), Some("not ready".to_string()));
    assert_eq!(BatchRun::start(o.clone(), "windows", Some(&health(true)), false, &vec![]).err(), Some("未找到企业微信，请手动指定路径".to_string()));
    assert!(BatchRun::start(o, "windows", Some(&health(true)), true, &vec![]).is_ok());
    let o = LaunchOptions::default();
    assert_eq!(BatchRun::start(o, "linux", None, false, &vec![]).err(), Some("未找到企业微信，请手动指定路径".to_string()));
}

#[test]
fn batch_runs_every_slot() {
    let mut o = LaunchOptions::default();
    o.count = 3;
    o.use_tier_delays = true;
    o.slot_tiers = vec!["main".into(), "test".into()];
    let mut run = BatchRun::start(o, "macos", None, true, &vec![]).unwrap();
    let mut slots = Vec::new();
    while let Some(i) = run.pending() {
        let d = run.pace();
        match i {
            1 => assert_eq!(d, None),
            2 => assert!((1500..=3500).contains(&d.unwrap())),
            _ => assert!((2500..=6000).contains(&d.unwrap())),
        }
        slots.push(i);
        run.record(SlotOutcome::Launched { prepared: "prep".into(), result: ok_result(i, "started") }).unwrap();
    }
    assert_eq!(slots, vec![1, 2, 3]);
    let b = run.finish("macos");
    assert_eq!(b.platform, "macos");
    assert_eq!(b.results.len(), 3);
    assert_eq!(b.results[0].message, "prep | [主号] started");
    assert_eq!(b.results[1].message, "prep | [测试] started");
    assert_eq!(b.results[2].message, "prep | [辅号] started");
    assert_eq!(b.results[2].pid, Some(1003));
}

#[test]
fn batch_stops_after_a_failure() {
    let mut o = LaunchOptions::default();
    o.count = 5;
    let mut run = BatchRun::start(o, "macos", None, true, &vec![]).unwrap();
    assert_eq!(run.pending(), Some(1));
    assert_eq!(run.pace(), None);
    run.record(SlotOutcome::Launched { prepared: "p".into(), result: ok_result(1, "a") }).unwrap();
    assert_eq!(run.pending(), Some(2));
    let d = run.pace().unwrap();
    assert!((2500..=6000).contains(&d));
    let mut failed = ok_result(2, "exited");
    failed.success = false;
    run.record(SlotOutcome::Launched { prepared: "p".into(), result: failed }).unwrap();
    assert_eq!(run.pending(), None);
    let b = run.finish("windows");
    assert_eq!(b.results.len(), 2);
    assert!(!b.results[1].success);
    assert_eq!(b.results[1].message, "p | [辅号] exited");
}

#[test]
fn batch_preparation_failure() {
    let mut o = LaunchOptions::default();
    o.count = 0;
    o.min_delay_ms = 9;
    o.max_delay_ms = 1;
    let mut run = BatchRun::start(o, "linux", None, true, &vec![]).unwrap();
    assert_eq!(run.pending(), Some(1));
    assert_eq!(run.pace(), None);
    run.record(SlotOutcome::PrepareFailed("当前平台不支持企业微信多开".into())).unwrap();
    assert_eq!(run.pending(), None);
    let b = run.finish("unsupported");
    assert_eq!(b.results.len(), 1);
    let r = &b.results[0];
    assert_eq!((r.success, r.pid, r.index), (false, None, 1));
    assert_eq!(r.message, "当前平台不支持企业微信多开");
}

#[test]
fn batch_spawn_failure_aborts() {
    let mut o = LaunchOptions::default();
    o.count = 2;
    let mut run = BatchRun::start(o, "macos", None, true, &vec![]).unwrap();
    run.pace();
    assert_eq!(run.record(SlotOutcome::SpawnFailed("open -n 失败: x".into())), Err("open -n 失败: x".to_string()));
    assert_eq!(run.pending(), None);
}

#[test]
fn one_result_of_a_batch() {
    let mut o = LaunchOptions::default();
    o.count = 1;
    let run = BatchRun::start(o, "macos", None, true, &vec![]).unwrap();
    let b = run.finish("macos");
    assert_eq!(single_result(b).err(), Some("未产生启动结果".to_string()));
    let b = wecom_launcher::models::BatchResult { results: vec![ok_result(1, "a"), ok_result(2, "b")], platform: "x".into() };
    assert_eq!(single_result(b).unwrap().message, "b");
}

#[test]
fn app_info_counts_pids() {
    let i = app_info("macos", Some("/Applications/WeCom.app".into()), vec![3, 9], false);
    assert_eq!(i.platform, "macos");
    assert_eq!(i.running_count, 2);
    assert_eq!(i.running_pids, vec![3, 9]);
    assert!(!i.is_admin);
}

#[test]
fn batch_takes_only_free_slots() {
    let mut o = LaunchOptions::default();
    o.count = 3;
    let mut run = BatchRun::start(o, "macos", None, true, &vec![1, 3]).unwrap();
    let mut slots = Vec::new();
    while let Some(i) = run.pending() {
        run.pace();
        slots.push(i);
        run.record(SlotOutcome::Launched { prepared: "p".into(), result: ok_result(99, "ok") }).unwrap();
    }
    assert_eq!(slots, vec![2, 4, 5]);
    let b = run.finish("macos");
    let indices: Vec<u8> = b.results.iter().map(|r| r.index).collect();
    assert_eq!(indices, vec![2, 4, 5]);
}

#[test]
fn one_instance_takes_the_next_free_slot() {
    let mut o = LaunchOptions::default();
    o.count = 1;
    let mut run = BatchRun::start(o, "macos", None, true, &vec![1, 2, 2, 5]).unwrap();
    assert_eq!(run.pending(), Some(3));
    run.pace();
    run.record(SlotOutcome::Launched { prepared: "p".into(), result: ok_result(3, "ok") }).unwrap();
    assert_eq!(run.pending(), None);
    assert_eq!(single_result(run.finish("macos")).unwrap().index, 3);
}

#[test]
fn batch_refused_without_free_slots() {
    let mut o = LaunchOptions::default();
    o.count = 2;
    let busy: Vec<u8> = (1..=9).collect();
    assert_eq!(
        BatchRun::start(o, "macos", None, true, &busy).err(),
        Some("空闲槽位不足：需要 2 个，当前已占用 9 个（最多 10）。请先关闭部分企微或点「全部关闭」。".to_string())
    );
}

#[test]
fn precheck_refuses_before_lookups() {
    let mut o = LaunchOptions::default();
    assert_eq!(launch_precheck(&o, "linux", None), Ok(()));
    o.windows_safe_mode = true;
    assert_eq!(launch_precheck(&o, "linux", None), Err("安全模式仅支持 Windows".to_string()));
    assert_eq!(launch_precheck(&o, "windows", Some(&health(false))), Err("not ready".to_string()));
    assert_eq!(launch_precheck(&o, "windows", Some(&health(true))), Ok(()));
}
