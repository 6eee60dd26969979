use nixvm::launch_id::LaunchId;
use nixvm::path::HostPath;
use nixvm::state::{
    image_path_for, log_dir, log_path_for, path_to_hash, persistent_root_dir, state_dir, state_dir_in,
    transient_root_dir,
};

fn sample() -> LaunchId {
    LaunchId {
        bytes: [
            0x01, 0x8f, 0x2a, 0x3b, 0x4c, 0x5d, 0x7e, 0x6f, 0x80, 0x91, 0xa2, 0xb3, 0xc4, 0xd5,
            0xe6, 0xf7,
        ],
    }
}

#[test]
fn identities_as_text() {
    assert_eq!(sample().to_text(), "018f2a3b-4c5d-7e6f-8091-a2b3c4d5e6f7");
    assert_eq!(
        sample().log_name(),
        "018f2a3b-4c5d-7e6f-8091-a2b3c4d5e6f7.log"
    );
    assert_eq!(
        sample().image_name(),
        "nixvm-018f2a3b-4c5d-7e6f-8091-a2b3c4d5e6f7.img"
    );
}

#[test]
fn identities_agree_with_uuid() {
    let id = LaunchId::now();
    assert_eq!(id.bytes[6] / 16, 7);
    assert_eq!(id.bytes[8] / 64, 2);
    assert_eq!(id.to_text(), uuid::Uuid::from_bytes(id.bytes).to_string());
}

#[test]
fn identities_follow_each_other() {
    let a = LaunchId::now();
    let b = LaunchId::now();
    assert_ne!(a.bytes, b.bytes);
    assert_ne!(a.to_text(), b.to_text());
}

#[test]
fn launches_have_their_own_files() {
    let state = HostPath::from_text("/s");
    let temp = HostPath::from_text("/tmp");
    let mut other = sample();
    other.bytes[15] = 0;
    assert_eq!(log_dir(&state).show(), "/s/logs");
    assert_eq!(
        log_path_for(&state, sample()).show(),
        "/s/logs/018f2a3b-4c5d-7e6f-8091-a2b3c4d5e6f7.log"
    );
    assert_eq!(
        transient_root_dir(&state, sample()).show(),
        "/s/transient/018f2a3b-4c5d-7e6f-8091-a2b3c4d5e6f7"
    );
    assert_eq!(
        image_path_for(&temp, sample()).show(),
        "/tmp/nixvm-018f2a3b-4c5d-7e6f-8091-a2b3c4d5e6f7.img"
    );
    assert_ne!(
        log_path_for(&state, sample()).show(),
        log_path_for(&state, other).show()
    );
}

#[test]
fn roots_follow_the_hash_of_the_image() {
    let state = HostPath::from_text("/s");
    assert_eq!(
        persistent_root_dir(&state, 0xabcdef).show(),
        "/s/roots/0000000000abcdef"
    );
    assert_ne!(
        persistent_root_dir(&state, 1).show(),
        persistent_root_dir(&state, 2).show()
    );
}

#[test]
fn the_resolved_path_of_an_image_is_hashed() {
    let image = HostPath::from_text("vm.img");
    let resolved = HostPath::from_text("/images/vm.img");
    assert_eq!(path_to_hash(&image, Ok(resolved)).show(), "/images/vm.img");
    assert_eq!(path_to_hash(&image, Err("ENOENT".to_string())).show(), "vm.img");
}

#[test]
fn state_stands_with_the_data_of_the_user() {
    let temp = HostPath::from_text("/tmp");
    assert_eq!(state_dir_in(Some(b"/home/u/data".to_vec()), &temp).show(), "/home/u/data/nixvm");
    assert_eq!(state_dir_in(None, &temp).show(), "/tmp/nixvm");
    let expected = match dirs::data_local_dir() {
        Some(dir) => dir.join("nixvm"),
        None => std::path::Path::new("/tmp").join("nixvm"),
    };
    assert_eq!(state_dir(&temp).show(), expected.to_string_lossy());
}
