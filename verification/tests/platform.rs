use std::collections::HashMap;

use wecom_launcher::models::LaunchOptions;
use wecom_launcher::platform::common::{
    allocate_free_slots, current_platform, kill_targets, list_wecom_pids, wecom_process_matchers,
    ProcessEntry,
};
use wecom_launcher::platform::macos::{self, MacLaunch};
use wecom_launcher::platform::unsupported;
use wecom_launcher::platform::windows::{self, HandleEntry, HandleStep, SpawnPlan, UserSetup};
use wecom_launcher::platform::{check_safe_mode_health, ensure_safe_mode_users, is_elevated, list_safe_mode_users};

fn entry(pid: u32, name: &str, exe: &str) -> ProcessEntry {
    ProcessEntry { pid, name: name.to_string(), exe: exe.to_string() }
}

#[test]
fn platform_names() {
    assert_eq!(current_platform("windows"), "windows");
    assert_eq!(current_platform("macos"), "macos");
    assert_eq!(current_platform("linux"), "unsupported");
    assert_eq!(current_platform("Windows"), "unsupported");
}

#[test]
fn matchers() {
    let m = wecom_process_matchers();
    assert_eq!(m.to_vec(), vec!["WXWork", "wxwork", "WeCom", "wecom", "企业微信", "WeChatWork", "wechatwork"]);
}

#[test]
fn client_pids_sorted_without_launcher() {
    let procs = vec![
        entry(30, "WXWork.exe", "C:\\WXWork\\WXWork.exe"),
        entry(5, "企业微信", "/Applications/企业微信.app/Contents/MacOS/企业微信"),
        entry(30, "WXWork.exe", ""),
        entry(7, "bash", "/bin/bash"),
        entry(9, "wecom-multi-launcher", ""),
        entry(11, "launcher", "/Applications/WeCom Launcher.app/x"),
        entry(2, "helper", "/opt/wechatwork/helper"),
        entry(4, "a", "WeCom"),
    ];
    assert_eq!(list_wecom_pids(&procs), vec![2, 4, 5, 30]);
    assert_eq!(list_wecom_pids(&Vec::new()), Vec::<u32>::new());
}

#[test]
fn matching_spans_name_and_path() {
    // "WeCom" split by the space between name and path does not match; "x WeC" + "om" neither.
    let procs = vec![entry(1, "x We", "Com"), entry(2, "We", "Com")];
    assert_eq!(list_wecom_pids(&procs), Vec::<u32>::new());
    let procs = vec![entry(3, "WeCom", "Launcher")];
    assert_eq!(list_wecom_pids(&procs), Vec::<u32>::new());
}

#[test]
fn kill_targets_keep_order() {
    let procs = vec![
        entry(30, "WXWork.exe", ""),
        entry(9, "wecom-multi-launcher", ""),
        entry(11, "launcher", "/Applications/WeCom Launcher.app/x"),
        entry(5, "wxwork", ""),
        entry(6, "zsh", ""),
    ];
    assert_eq!(kill_targets(&procs), vec![30, 11, 5]);
}

#[test]
fn free_slots_skip_busy_ones() {
    assert_eq!(allocate_free_slots(3, &vec![1, 2]), Ok(vec![3, 4, 5]));
    assert_eq!(allocate_free_slots(0, &vec![]), Ok(vec![1]));
    assert_eq!(allocate_free_slots(1, &vec![1, 3, 200]), Ok(vec![2]));
    assert_eq!(allocate_free_slots(50, &vec![]), Ok((1..=10).collect::<Vec<u8>>()));
    assert_eq!(allocate_free_slots(2, &vec![2, 4, 6, 8]), Ok(vec![1, 3]));
}

#[test]
fn free_slots_shortage() {
    let busy: Vec<u8> = (1..=9).collect();
    assert_eq!(
        allocate_free_slots(2, &busy),
        Err("空闲槽位不足：需要 2 个，当前已占用 9 个（最多 10）。请先关闭部分企微或点「全部关闭」。".to_string())
    );
    let busy: Vec<u8> = vec![1, 1, 2, 3, 4, 5, 6, 7, 8, 9, 10, 10, 42];
    assert_eq!(
        allocate_free_slots(1, &busy),
        Err("空闲槽位不足：需要 1 个，当前已占用 11 个（最多 10）。请先关闭部分企微或点「全部关闭」。".to_string())
    );
}

#[test]
fn unsupported_backend() {
    let o = LaunchOptions::default();
    assert!(unsupported::resolve_app_path(Some("/x")).is_none());
    assert_eq!(unsupported::prepare_next_instance(&o), Err("当前平台不支持企业微信多开".to_string()));
    let r = unsupported::spawn_instance(std::path::Path::new("/x"), 1, &o);
    assert_eq!(r.err(), Some("当前平台不支持企业微信多开".to_string()));
    assert!(unsupported::busy_slot_indices().is_empty());
    unsupported::note_slot_pid(1, Some(2));
    unsupported::clear_slot_pid_state();
}

#[test]
fn safe_mode_elsewhere() {
    assert_eq!(
        ensure_safe_mode_users(3, "password", "x").err(),
        Some("安全模式（本地用户隔离）仅支持 Windows".to_string())
    );
    assert!(!is_elevated());
    let users = list_safe_mode_users(0, " ");
    assert_eq!(users.len(), 1);
    assert_eq!((users[0].index, users[0].username.as_str(), users[0].exists), (1, "WeComSlot1", false));
    let users = list_safe_mode_users(12, "u");
    assert_eq!(users.len(), 10);
    assert_eq!(users[9].username, "u10");
    let h = check_safe_mode_health(2, "p", Some("  1234567 "));
    assert!(!h.platform_ok && !h.is_admin && !h.ready && !h.password_ok);
    assert_eq!(h.users.len(), 2);
    assert!(h.missing_users.is_empty());
    assert_eq!(h.warnings, vec!["安全模式仅支持 Windows".to_string()]);
    assert_eq!(h.summary, "当前平台不支持安全模式");
    assert!(check_safe_mode_health(2, "p", Some("密码12")).password_ok);
    assert!(!check_safe_mode_health(2, "p", None).password_ok);
}

fn status(index: u8, name: &str, exists: bool) -> wecom_launcher::models::SafeModeUserStatus {
    wecom_launcher::models::SafeModeUserStatus { index, username: name.to_string(), exists }
}

#[test]
fn windows_health_not_ready() {
    let users = vec![status(1, "S1", true), status(2, "S2", false), status(3, "S3", false)];
    let h = windows::check_safe_mode_health(users, false, None);
    assert!(h.platform_ok && !h.is_admin && !h.password_ok && !h.ready);
    assert_eq!(h.missing_users, vec!["S2".to_string(), "S3".to_string()]);
    assert_eq!(h.warnings.len(), 3);
    assert_eq!(h.warnings[2], "缺少本地用户：S2, S3。请先点「准备本地用户」。");
    assert_eq!(
        h.summary,
        "安全模式未就绪：当前未以管理员运行：准备本地用户可能失败，建议右键「以管理员身份运行」。 本地用户密码未填或不足 8 位。 缺少本地用户：S2, S3。请先点「准备本地用户」。"
    );
}

#[test]
fn windows_health_ready() {
    let users = vec![status(1, "S1", true), status(2, "S2", true)];
    let h = windows::check_safe_mode_health(users.clone(), true, Some("secret-pw"));
    assert!(h.ready && h.password_ok && h.warnings.is_empty());
    assert_eq!(h.summary, "安全模式校验通过：2/2 用户已就绪，管理员权限正常");
    let h = windows::check_safe_mode_health(users, false, Some(" secret-pw "));
    assert!(h.ready);
    assert_eq!(h.warnings.len(), 1);
    assert_eq!(h.summary, "安全模式校验通过：2/2 用户已就绪（非管理员，启动通常仍可用）");
}

#[test]
fn windows_password_and_preparation() {
    assert_eq!(windows::validate_safe_mode_password(" 12345678 "), Ok(" 12345678 ".to_string()));
    assert_eq!(
        windows::validate_safe_mode_password("1234567 "),
        Err("安全模式密码至少 8 位（需满足 Windows 密码策略）".to_string())
    );
    let users = vec!["A1".to_string(), "A2".to_string(), "A3".to_string()];
    let ok = windows::ensure_safe_mode_users(&users, &vec![UserSetup::Existed, UserSetup::Created, UserSetup::Created]);
    assert_eq!(ok.created, vec!["A2".to_string(), "A3".to_string()]);
    assert_eq!(ok.already_existed, vec!["A1".to_string()]);
    assert!(ok.failed.is_empty());
    assert_eq!(ok.message, "安全模式用户就绪：新建 2，已存在 1。请以管理员运行启动器。");
    let bad = windows::ensure_safe_mode_users(
        &users,
        &vec![UserSetup::Failed("denied".into()), UserSetup::Created, UserSetup::Failed("x".into())],
    );
    assert_eq!(bad.failed, vec!["A1: denied".to_string(), "A3: x".to_string()]);
    assert_eq!(bad.message, "部分失败（通常需要管理员权限）: A1: denied; A3: x");
}

#[test]
fn windows_slot_bookkeeping() {
    let mut slots: HashMap<u8, u32> = HashMap::new();
    windows::note_slot_pid(&mut slots, 1, Some(100));
    windows::note_slot_pid(&mut slots, 3, Some(300));
    windows::note_slot_pid(&mut slots, 4, Some(400));
    windows::note_slot_pid(&mut slots, 12, Some(1200));
    windows::note_slot_pid(&mut slots, 4, None);
    let busy = windows::busy_slot_indices(&vec![300, 100, 1200], &mut slots);
    assert_eq!(busy, vec![1, 3]);
    let busy = windows::busy_slot_indices(&vec![300], &mut slots);
    assert_eq!(busy, vec![3]);
    assert_eq!(slots.get(&1), None);
    assert_eq!(slots.get(&3), Some(&300));
    assert_eq!(slots.get(&12), Some(&1200));
}

#[test]
fn windows_main_pids() {
    let procs = vec![
        entry(8, "WXWorkWeb.exe", "C:\\WXWork\\WXWorkWeb.exe"),
        entry(4, "wxwork.EXE", ""),
        entry(6, "other", "D:\\apps\\WXWORK.exe"),
        entry(2, "WXWork.exe", "C:\\wecom-multi-launcher\\WXWork.exe"),
    ];
    assert_eq!(windows::wecom_main_pids(&procs), vec![4, 6]);
    let helpers = vec![entry(8, "WXWorkWeb.exe", ""), entry(3, "wecom helper", "")];
    assert_eq!(windows::wecom_main_pids(&helpers), vec![3, 8]);
}

#[test]
fn app_paths() {
    let c = macos::app_path_candidates(Some("/x/WeCom.app"));
    assert_eq!(c, vec!["/x/WeCom.app", "/Applications/企业微信.app", "/Applications/WeCom.app", "/Applications/WXWork.app"]);
    assert_eq!(macos::resolve_app_path(&c, &vec![false, false, true, true]), Some("/Applications/WeCom.app".to_string()));
    assert_eq!(macos::resolve_app_path(&c, &vec![false; 4]), None);
    let w = windows::app_path_candidates(None, Some("E:\\WXWork\\WXWork.exe"));
    assert_eq!(w.len(), 5);
    assert_eq!(w[0], "E:\\WXWork\\WXWork.exe");
    assert_eq!(w[4], "D:\\Program Files\\WXWork\\WXWork.exe");
    assert_eq!(windows::resolve_app_path(&w, &vec![false, true, false, false, true]), Some(w[1].clone()));
}

#[test]
fn macos_reports() {
    assert_eq!(macos::prepare_next_instance(0), Ok("macOS：使用 open -n 启动官方企业微信（不创建镜像）".to_string()));
    assert_eq!(macos::prepare_next_instance(12), Ok("macOS：已清理 12 个旧镜像，准备 open -n 启动".to_string()));
    let r = macos::spawn_report(2, MacLaunch::Direct(4242)).unwrap();
    assert!(r.success);
    assert_eq!(r.pid, Some(4242));
    assert_eq!(r.message, "已启动实例 #2 PID=4242（官方客户端，无镜像）");
    let r = macos::spawn_report(3, MacLaunch::Opened).unwrap();
    assert_eq!((r.success, r.pid, r.index), (true, None, 3));
    assert_eq!(r.message, "已通过 open -n 启动实例 #3（官方客户端，无镜像）");
    let r = macos::spawn_report(1, MacLaunch::OpenFailed(Some(-3))).unwrap();
    assert!(!r.success);
    assert_eq!(r.message, format!("open -n 退出码: {:?}", Some(-3)));
    let r = macos::spawn_report(1, MacLaunch::OpenFailed(None)).unwrap();
    assert_eq!(r.message, "open -n 退出码: None");
    assert_eq!(
        macos::spawn_report(1, MacLaunch::OpenUnavailable("no such file".into())).err(),
        Some("open -n 失败: no such file".to_string())
    );
}

#[test]
fn windows_preparation_notes() {
    assert_eq!(
        windows::prepare_next_instance(false, false, false, Ok("x".into())),
        Ok("建议以管理员运行（否则可能无法释放互斥体） | SeDebugPrivilege 未启用 | 无运行中企微，跳过互斥扫描".to_string())
    );
    assert_eq!(windows::prepare_next_instance(true, true, true, Ok("已释放 2 个互斥句柄".into())), Ok("已释放 2 个互斥句柄".to_string()));
    assert_eq!(windows::prepare_next_instance(true, false, true, Err("e".into())), Ok("SeDebugPrivilege 未启用 | 预释放: e".to_string()));
}

#[test]
fn windows_spawn_reports() {
    let r = windows::spawn_report(2, Ok(Some(77)), Ok("post".into()), true);
    assert_eq!((r.success, r.pid, r.index), (true, Some(77), 2));
    assert_eq!(r.message, "已启动实例 #2 PID=77 | post");
    let r = windows::spawn_report(2, Ok(Some(77)), Err("timeout".into()), false);
    assert!(!r.success);
    assert_eq!(r.message, "实例 #2 PID=77 启动后退出。请以管理员运行，并先完全退出企微后再试。| 启动后释放跳过: timeout");
    let r = windows::spawn_report(5, Ok(None), Ok("p".into()), false);
    assert!(r.success);
    assert_eq!(r.message, "已启动实例 #5 | p");
    let r = windows::spawn_report(1, Err("denied".into()), Ok("p".into()), true);
    assert_eq!((r.success, r.pid), (false, None));
    assert_eq!(r.message, "启动失败: denied");
}

#[test]
fn windows_safe_mode_launch_reports() {
    let mut o = LaunchOptions::default();
    assert_eq!(windows::safe_mode_password(&o), Err("安全模式需要填写本地用户密码".to_string()));
    o.safe_mode_password = Some("   ".into());
    assert_eq!(windows::safe_mode_password(&o), Err("安全模式需要填写本地用户密码".to_string()));
    o.safe_mode_password = Some(" pw ".into());
    assert_eq!(windows::safe_mode_password(&o), Ok("pw".to_string()));
    let r = windows::local_user_launch_report(3, "S3", false, Ok(1));
    assert_eq!((r.success, r.pid), (false, None));
    assert_eq!(r.message, "本地用户 S3 不存在。请先点「准备本地用户」（需管理员）");
    let r = windows::local_user_launch_report(3, "S3", true, Ok(9));
    assert_eq!((r.success, r.pid), (true, Some(9)));
    assert_eq!(r.message, "安全模式已启动 #3 用户=S3 PID=9");
    let r = windows::local_user_launch_report(3, "S3", true, Err("bad".into()));
    assert_eq!(r.message, "以用户 S3 启动失败: bad（检查密码、用户是否存在、是否被策略禁止）");
}

#[test]
fn windows_registry_decision() {
    let mut o = LaunchOptions::default();
    assert_eq!(windows::registry_multi_instances(&o), Some(10));
    o.prefer_registry = false;
    assert_eq!(windows::registry_multi_instances(&o), None);
}

#[test]
fn windows_spawn_plans() {
    let mut o = LaunchOptions::default();
    match windows::spawn_instance(&o, 2, Some("C:\\WXWork")).unwrap() {
        SpawnPlan::Direct { workdir } => assert_eq!(workdir, "C:\\WXWork"),
        _ => panic!("expected a direct start"),
    }
    o.windows_safe_mode = true;
    assert_eq!(windows::spawn_instance(&o, 2, None).err(), Some("安全模式需要填写本地用户密码".to_string()));
    o.safe_mode_password = Some(" secret ".into());
    o.safe_mode_user_prefix = "Slot".into();
    match windows::spawn_instance(&o, 2, None).unwrap() {
        SpawnPlan::Logon { username, domain, password, workdir } => {
            assert_eq!((username.as_str(), domain.as_str(), password.as_str(), workdir.as_str()), ("Slot2", ".", "secret", "."));
        }
        _ => panic!("expected a logon"),
    }
}

#[test]
fn windows_lock_names() {
    assert!(windows::is_lock_name("\\Sessions\\1\\BaseNamedObjects\\tencent.wework.exclusiveobject"));
    assert!(windows::is_lock_name("xx_WXWORK_EXCLUSIVE_yy"));
    assert!(!windows::is_lock_name("Tencent.WeWork.Other"));
    assert!(!windows::is_lock_name(""));
}

#[test]
fn windows_handle_steps() {
    assert_eq!(windows::handle_step(5, Some(5), 0, true), (HandleStep::Stop, 0));
    assert_eq!(windows::handle_step(5, Some(7), 3, false), (HandleStep::Skip, 3));
    assert_eq!(windows::handle_step(7, Some(7), 500, false), (HandleStep::Query, 501));
    assert_eq!(windows::handle_step(7, None, 119, false), (HandleStep::Query, 120));
    assert_eq!(windows::handle_step(7, None, 120, false), (HandleStep::Stop, 120));
}

#[test]
fn windows_table_growth() {
    assert_eq!(windows::next_table_size(1 << 20, 100), Ok(2 << 20));
    assert_eq!(windows::next_table_size(1 << 20, 3 << 20), Ok(6 << 20));
    assert_eq!(windows::next_table_size(32 << 20, 0), Ok(64 << 20));
    assert_eq!(windows::next_table_size(1 << 20, 40 << 20), Err("系统句柄表过大，跳过本次扫描".to_string()));
    assert_eq!(windows::table_exhausted(), "句柄枚举缓冲区不足");
}

#[test]
fn windows_handles_of_a_process() {
    let t = vec![
        HandleEntry { owner: 4, handle_value: 0x10, type_index: 3 },
        HandleEntry { owner: (1usize << 32) + 4, handle_value: 0x14, type_index: 5 },
        HandleEntry { owner: 8, handle_value: 0x18, type_index: 3 },
    ];
    let expected = if usize::BITS > 32 { vec![(0x10, 3), (0x14, 5)] } else { vec![(0x10, 3)] };
    assert_eq!(windows::handles_of_process(&t, 4), expected);
}

#[test]
fn windows_release_summaries() {
    assert_eq!(windows::release_summary(false, 3, vec!["e".into()]), Ok("未发现运行中的企业微信，可直接启动".to_string()));
    assert_eq!(
        windows::release_summary(true, 0, vec![windows::pid_error(12, "denied"), "PID 13: x".into()]),
        Err("释放互斥体失败（可尝试以管理员运行）: PID 12: denied; PID 13: x".to_string())
    );
    assert_eq!(windows::release_summary(true, 2, vec!["e".into()]), Ok("已释放 2 个互斥句柄".to_string()));
    assert_eq!(windows::release_summary(true, 0, vec![]), Ok("未匹配到互斥句柄（可能已释放或版本更名）".to_string()));
}

#[test]
fn windows_prepare_all_existing() {
    let users = vec!["A1".to_string(), "A2".to_string()];
    let r = windows::ensure_safe_mode_users(&users, &vec![UserSetup::Existed, UserSetup::Existed]);
    assert!(r.created.is_empty() && r.failed.is_empty());
    assert_eq!(r.already_existed, users);
}

#[test]
fn windows_slot_record_from_json() {
    let m = windows::load_slot_pids(Some(br#"{"1": 100, "7": 4242}"#.as_slice()));
    assert_eq!(m.len(), 2);
    assert_eq!(m.get(&1), Some(&100));
    assert_eq!(m.get(&7), Some(&4242));
    assert!(windows::load_slot_pids(Some(b"not json".as_slice())).is_empty());
    assert!(windows::load_slot_pids(Some(br#"{"300": 1}"#.as_slice())).is_empty());
    assert!(windows::load_slot_pids(None).is_empty());
    assert!(windows::slot_record_or_empty(None).is_empty());
}

#[test]
fn windows_slot_record_round_trip() {
    let mut m = HashMap::new();
    m.insert(3u8, 33u32);
    m.insert(10u8, 1010u32);
    let bytes = windows::slot_record_bytes(&m).unwrap();
    assert_eq!(windows::load_slot_pids(Some(bytes.as_slice())), m);
}

#[test]
fn windows_registry_paths() {
    assert_eq!(windows::registry_exe_path("D:\\Apps\\WXWork.EXE"), "D:\\Apps\\WXWork.EXE");
    assert_eq!(windows::registry_exe_path("D:\\Apps\\WXWork\\"), "D:\\Apps\\WXWork\\WXWork.exe");
    assert_eq!(windows::registry_exe_path("D:\\Apps/\\/"), "D:\\Apps\\WXWork.exe");
    assert_eq!(windows::registry_exe_path("C:"), "C:WXWork.exe");
    assert_eq!(windows::registry_exe_path("C:\\"), "C:WXWork.exe");
    assert_eq!(windows::registry_exe_path(""), "WXWork.exe");
    assert_eq!(windows::registry_exe_path("\\\\srv\\share"), "\\\\srv\\share\\WXWork.exe");
}

#[test]
fn windows_probe_type() {
    let target: usize = 0x1234_5678_0000_0ab4;
    let entries = vec![(0x10usize, 1u16), (0x0ab4, 7), (target, 9)];
    assert_eq!(windows::find_probe_type(&entries, target), Some(7));
    assert_eq!(windows::find_probe_type(&vec![(0x11, 1)], target), None);
    assert_eq!(windows::find_probe_type(&vec![(0x5678_0000_0ab4 & 0xffff_ffff, 4)], target), Some(4));
}

#[test]
fn macos_legacy_clone_entries() {
    assert!(macos::is_legacy_clone(Some("app")));
    assert!(!macos::is_legacy_clone(Some("App")));
    assert!(!macos::is_legacy_clone(Some("apps")));
    assert!(!macos::is_legacy_clone(None));
}
