use osu_directer::download::{
    download_accepted, download_file_name, download_url, first_mirror, mirror_after, Mirror,
    MirrorStep, DOWNLOAD_DIR_NAME,
};

#[test]
fn mirrors_in_order() {
    assert_eq!(first_mirror(), Mirror::Chimu);
    assert_eq!(mirror_after(Mirror::Chimu, false), MirrorStep::Try(Mirror::Kitsu));
    assert_eq!(mirror_after(Mirror::Kitsu, false), MirrorStep::Exhausted);
    assert_eq!(mirror_after(Mirror::Chimu, true), MirrorStep::Delivered);
    assert_eq!(mirror_after(Mirror::Kitsu, true), MirrorStep::Delivered);
}

#[test]
fn mirror_urls() {
    assert_eq!(download_url(Mirror::Chimu, "123"), "https://api.chimu.moe/v1/download/123");
    assert_eq!(download_url(Mirror::Kitsu, "123"), "https://kitsu.moe/api/d/123");
}

#[test]
fn mirror_file_names() {
    assert_eq!(download_file_name(Mirror::Chimu, "123"), "123_chimu.osz");
    assert_eq!(download_file_name(Mirror::Kitsu, "123"), "123_kitsu.osz");
}

#[test]
fn only_status_200_is_accepted() {
    assert!(download_accepted(200));
    for status in [0u16, 201, 204, 301, 404, 500] {
        assert!(!download_accepted(status));
    }
}

#[test]
fn download_folder() {
    assert_eq!(DOWNLOAD_DIR_NAME, "osu!directer-beatmaps");
}
