use smartos_executor::config::Config;
use smartos_executor::gateway::{image_cache_key, listing_cache_key, Context};
use smartos_executor::http_server::GenericResponse;
use smartos_executor::instance::InstanceValidateResponse;
use smartos_executor::jobs::{ImageImportParams, ImportStatus};
use smartos_executor::runner::{check_output, GatewayError, ProcessOutput};

fn context() -> Context {
    Context::new(Config::new("smartos_executor", &Vec::new()))
}

fn ok(stdout: &str) -> Result<ProcessOutput, String> {
    Ok(ProcessOutput { success: true, stdout: stdout.to_string(), stderr: String::new() })
}

fn failed(stderr: &str) -> Result<ProcessOutput, String> {
    Ok(ProcessOutput { success: false, stdout: String::new(), stderr: stderr.to_string() })
}

const ID: &str = "01b2c898-945f-11e1-a523-af1afbe22822";
const ID_NUM: u128 = 0x01b2c898_945f_11e1_a523_af1afbe22822;

#[test]
fn read_miss_caches_successful_output() {
    let mut ctx = context();
    let key = listing_cache_key();
    assert_eq!(ctx.cache.get(&key, 0), None);
    assert_eq!(ctx.finish_read_at(key.clone(), ok("[]"), 0), Ok("[]".to_string()));
    assert_eq!(ctx.cache.get(&key, 1), Some("[]".to_string()));
    assert_eq!(ctx.cache.get(&key, 300_000_000_000), None);
}

#[test]
fn failed_read_is_not_cached() {
    let mut ctx = context();
    let key = image_cache_key(ID);
    assert_eq!(
        ctx.finish_read_at(key.clone(), failed("no such image"), 0),
        Err(GatewayError::ToolFailure("no such image".to_string()))
    );
    assert_eq!(ctx.cache.get(&key, 0), None);
    assert_eq!(
        ctx.finish_read_at(key.clone(), Err("not found".to_string()), 0),
        Err(GatewayError::SpawnFailure("not found".to_string()))
    );
    assert_eq!(ctx.cache.get(&key, 0), None);
}

#[test]
fn delete_invalidates_manifest_and_listing() {
    let mut ctx = context();
    let image = image_cache_key(ID);
    let listing = listing_cache_key();
    assert_eq!(image, format!("imgadm get {}", ID));
    ctx.cache.set(image.clone(), "{}".to_string(), 0);
    ctx.cache.set(listing.clone(), "[]".to_string(), 0);
    ctx.cache.set("sysinfo".to_string(), "{}".to_string(), 0);
    ctx.invalidate_image(ID);
    assert_eq!(ctx.cache.get(&image, 1), None);
    assert_eq!(ctx.cache.get(&listing, 1), None);
    assert_eq!(ctx.cache.get("sysinfo", 1), Some("{}".to_string()));
}

#[test]
fn clock_backed_cache_round_trip() {
    let mut ctx = context();
    assert!(ctx.set_cache("sysinfo".to_string(), "X".to_string()).is_none());
    assert_eq!(ctx.get_cache("sysinfo"), Some("X".to_string()));
    assert_eq!(ctx.remove_cache("sysinfo").map(|e| e.content), Some("X".to_string()));
    assert_eq!(ctx.get_cache("sysinfo"), None);
    assert_eq!(ctx.finish_read("k".to_string(), ok("out")), Ok("out".to_string()));
    assert_eq!(ctx.get_cache("k"), Some("out".to_string()));
}

fn params() -> ImageImportParams {
    ImageImportParams {
        url: "https://images.smartos.org/".to_string(),
        name: "base-64".to_string(),
        version: "24.4.0".to_string(),
        image_type: "zone-dataset".to_string(),
        os: "smartos".to_string(),
    }
}

#[test]
fn successful_import_drops_job_and_listing() {
    let mut ctx = context();
    let listing = listing_cache_key();
    ctx.cache.set(listing.clone(), "[]".to_string(), 0);
    ctx.import_queue.try_begin(ID_NUM, params()).unwrap();
    assert_eq!(ctx.finish_import(ID_NUM, ok("Imported")), Ok("Imported".to_string()));
    assert!(ctx.import_queue.status(ID_NUM).is_none());
    assert_eq!(ctx.cache.get(&listing, 1), None);
}

#[test]
fn failed_import_is_kept_as_failed() {
    let mut ctx = context();
    ctx.import_queue.try_begin(ID_NUM, params()).unwrap();
    assert_eq!(
        ctx.finish_import(ID_NUM, failed("network timeout")),
        Err(GatewayError::ToolFailure("network timeout".to_string()))
    );
    assert!(matches!(ctx.import_queue.status(ID_NUM), Some(ImportStatus::Failed(m)) if m == "network timeout"));
    ctx.finish_import(ID_NUM, Err("imgadm: not found".to_string())).unwrap_err();
    assert!(matches!(ctx.import_queue.status(ID_NUM), Some(ImportStatus::Failed(m)) if m == "imgadm: not found"));
}

#[test]
fn check_output_classifies_runs() {
    assert_eq!(check_output(ok("a")).unwrap().stdout, "a");
    assert_eq!(check_output(failed("e")).unwrap_err(), GatewayError::ToolFailure("e".to_string()));
    assert_eq!(check_output(Err("x".to_string())).unwrap_err(), GatewayError::SpawnFailure("x".to_string()));
}

#[test]
fn validation_answer_carries_stderr() {
    let r = InstanceValidateResponse::from_output(ProcessOutput {
        success: false,
        stdout: String::new(),
        stderr: "bad ram".to_string(),
    });
    assert!(!r.success);
    assert_eq!(r.message, "bad ram");
}

#[test]
fn import_done_message() {
    let r = GenericResponse::import_done("req-1".to_string(), ID, "done".to_string());
    assert_eq!(r.message, format!("Image {} has been imported and is ready to use.", ID));
    assert_eq!(r.request_id, "req-1");
    assert_eq!(r.detail, "done");
}
