use robogit::config::{branch_name, commit_message, push_refspec, readme_file_name, remote_name};

#[test]
fn tracked_file_is_the_readme() {
    assert_eq!(readme_file_name(), "README.md");
}

#[test]
fn commit_message_is_fixed() {
    assert_eq!(commit_message(), "Updated README.md");
}

#[test]
fn remote_is_origin() {
    assert_eq!(remote_name(), "origin");
}

#[test]
fn branch_is_master_on_both_sides() {
    assert_eq!(branch_name(), "master");
    assert_eq!(push_refspec(), "refs/heads/master:refs/heads/master");
    let refspec = push_refspec();
    let (local, remote) = refspec.split_once(':').unwrap();
    assert_eq!(local, format!("refs/heads/{}", branch_name()));
    assert_eq!(remote, format!("refs/heads/{}", branch_name()));
}
