use image_fetch::{build_jobs, image_file_name, image_url, plan_jobs, sanitize_query, Resolution};

#[test]
fn query_with_space_and_question_mark() {
    assert_eq!(sanitize_query("cats & dogs?"), "cats_&_dogs-");
}

#[test]
fn sanitizing_twice_changes_nothing() {
    for q in ["cats & dogs?", "a\tb\nc", "plain", "", "why? why not?"] {
        let once = sanitize_query(q);
        assert_eq!(sanitize_query(&once), once);
    }
}

#[test]
fn all_whitespace_becomes_underscore() {
    assert_eq!(sanitize_query("a\tb\u{A0}c\u{3000}d"), "a_b_c_d");
    assert_eq!(sanitize_query("??"), "--");
}

#[test]
fn url_embeds_resolution_and_raw_query() {
    let r = Resolution::new(1920, 1080, "Full HD");
    assert_eq!(image_url(&r, "cats & dogs?"), "https://source.unsplash.com/random/1920x1080/?cats & dogs?");
    let v = Resolution::new(7, 0, "tiny");
    assert_eq!(image_url(&v, ""), "https://source.unsplash.com/random/7x0/?");
}

#[test]
fn file_name_joins_folder_and_stamp() {
    assert_eq!(image_file_name("cats", "20240102030405123456789"), "cats-20240102030405123456789.png");
}

#[test]
fn planned_jobs_follow_their_stamps() {
    let r = Resolution::new(2560, 1440, "Quad HD");
    let stamps = vec!["1".to_string(), "2".to_string(), "3".to_string()];
    let jobs = plan_jobs(&r, "red car", &stamps);
    assert_eq!(jobs.len(), 3);
    for (i, job) in jobs.iter().enumerate() {
        assert_eq!(job.index, i);
        assert_eq!(job.file_name, format!("red_car-{}.png", i + 1));
        assert_eq!(job.url, "https://source.unsplash.com/random/2560x1440/?red car");
    }
}

#[test]
fn zero_images_plan_no_jobs() {
    let r = Resolution::new(1920, 1080, "Full HD");
    assert!(build_jobs(&r, "sea", 0).is_empty());
    assert!(plan_jobs(&r, "sea", &Vec::new()).is_empty());
}

#[test]
fn built_jobs_carry_a_time_stamp() {
    let r = Resolution::new(3840, 2160, "4K");
    let jobs = build_jobs(&r, "night sky", 4);
    assert_eq!(jobs.len(), 4);
    for (i, job) in jobs.iter().enumerate() {
        assert_eq!(job.index, i);
        assert_eq!(job.url, "https://source.unsplash.com/random/3840x2160/?night sky");
        let stamp = job.file_name.strip_prefix("night_sky-").and_then(|s| s.strip_suffix(".png")).expect("shape");
        assert!(stamp.len() >= 23 && stamp.chars().all(|c| c.is_ascii_digit()), "{}", stamp);
    }
}

#[test]
fn every_built_job_has_its_own_file() {
    let r = Resolution::new(1920, 1080, "Full HD");
    let jobs = build_jobs(&r, "cats & dogs?", 50);
    assert_eq!(jobs.len(), 50);
    let mut names: Vec<&str> = jobs.iter().map(|j| j.file_name.as_str()).collect();
    names.sort();
    names.dedup();
    assert_eq!(names.len(), 50);
    for job in &jobs {
        assert!(job.file_name.starts_with("cats_&_dogs--") && job.file_name.ends_with(".png"));
    }
}
