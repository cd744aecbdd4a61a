use typst_lib_wrapper::errors::PackageError;
use typst_lib_wrapper::package::{
    content_length_hint, download_error, finish_download, parse_usize, locate, needs_cleanup, package_subdir, package_url, version_string,
    DownloadFailure, PackageSpec, PackageStep, PackageVersion,
};

fn spec(namespace: &str) -> PackageSpec {
    PackageSpec {
        namespace: namespace.to_string(),
        name: "cetz".to_string(),
        version: PackageVersion { major: 0, minor: 13, patch: 107 },
    }
}

#[test]
fn version_is_written_in_decimal() {
    assert_eq!(version_string(PackageVersion { major: 0, minor: 13, patch: 107 }), "0.13.107");
    assert_eq!(version_string(PackageVersion { major: 4294967295, minor: 0, patch: 10 }), "4294967295.0.10");
}

#[test]
fn subdir_and_url_of_a_package() {
    assert_eq!(package_subdir(&spec("preview")), "typst/packages/preview/cetz/0.13.107");
    assert_eq!(package_subdir(&spec("local")), "typst/packages/local/cetz/0.13.107");
    assert_eq!(package_url(&spec("preview")), "https://packages.typst.org/preview/cetz-0.13.107.tar.gz");
}

#[test]
fn installed_package_wins_over_cache() {
    assert_eq!(locate(&spec("preview"), true, Some(true)), PackageStep::UseInstalled);
    assert_eq!(locate(&spec("local"), true, None), PackageStep::UseInstalled);
    assert_eq!(locate(&spec("preview"), false, Some(true)), PackageStep::UseCached);
    assert_eq!(locate(&spec("local"), false, Some(true)), PackageStep::UseCached);
}

#[test]
fn only_preview_namespace_downloads() {
    assert_eq!(locate(&spec("preview"), false, Some(false)), PackageStep::Download);
    assert_eq!(locate(&spec("local"), false, Some(false)), PackageStep::NotFound);
    assert_eq!(locate(&spec("Preview"), false, Some(false)), PackageStep::NotFound);
    assert_eq!(locate(&spec("preview"), false, None), PackageStep::NotFound);
}

#[test]
fn second_resolution_uses_the_cache() {
    let s = spec("preview");
    assert_eq!(locate(&s, false, Some(false)), PackageStep::Download);
    assert_eq!(finish_download(&s, true), Ok(PackageStep::UseCached));
    assert_eq!(locate(&s, false, Some(true)), PackageStep::UseCached);
}

#[test]
fn download_without_directory_is_not_found() {
    let s = spec("preview");
    assert_eq!(finish_download(&s, false), Err(PackageError::NotFound(s.clone())));
}

#[test]
fn http_404_means_not_found() {
    let s = spec("preview");
    let e = download_error(&s, DownloadFailure::Status(404), "http status: 404".to_string());
    assert_eq!(e, PackageError::NotFound(s));
}

#[test]
fn other_failures_are_network_or_archive_errors() {
    let s = spec("preview");
    assert_eq!(
        download_error(&s, DownloadFailure::Status(500), "http status: 500".to_string()),
        PackageError::NetworkFailed(Some("http status: 500".to_string()))
    );
    assert_eq!(
        download_error(&s, DownloadFailure::Transport, "dns".to_string()),
        PackageError::NetworkFailed(Some("dns".to_string()))
    );
    assert_eq!(
        download_error(&s, DownloadFailure::Body, "reset".to_string()),
        PackageError::NetworkFailed(Some("reset".to_string()))
    );
    assert_eq!(
        download_error(&s, DownloadFailure::Unpack, "bad gzip".to_string()),
        PackageError::MalformedArchive(Some("bad gzip".to_string()))
    );
    assert!(needs_cleanup(DownloadFailure::Unpack));
    assert!(!needs_cleanup(DownloadFailure::Status(404)));
    assert!(!needs_cleanup(DownloadFailure::Body));
}

#[test]
fn numerals_parse_like_unsigned_integers() {
    assert_eq!(parse_usize("1024"), Some(1024));
    assert_eq!(parse_usize("+7"), Some(7));
    assert_eq!(parse_usize("007"), Some(7));
    assert_eq!(parse_usize(""), None);
    assert_eq!(parse_usize("+"), None);
    assert_eq!(parse_usize("-1"), None);
    assert_eq!(parse_usize("12a"), None);
    assert_eq!(parse_usize(" 12"), None);
    assert_eq!(parse_usize(&usize::MAX.to_string()), Some(usize::MAX));
    assert_eq!(parse_usize("99999999999999999999999"), None);
}

#[test]
fn content_length_hint_defaults_to_zero() {
    assert_eq!(content_length_hint(Some("4096")), 4096);
    assert_eq!(content_length_hint(Some("lots")), 0);
    assert_eq!(content_length_hint(None), 0);
}
