use media_convert::PlanError;
use media_convert::SubCommand;
use media_convert::conversion_command_for;
use media_convert::plan_commands;
use media_convert::render_plan;
use media_convert::target_ext;
use media_convert::version_check_commands;

fn strings(values: &[&str]) -> Vec<String> {
    values.iter().map(|v| v.to_string()).collect()
}

#[test]
fn photo_plan_shares_one_mkdir() {
    let sub = SubCommand::Photo {
        strip: false,
        resize: false,
        resize_size: "2000x1000>".to_string(),
        input_files: strings(&["bla/one.png", "bla/two.png"]),
    };
    let plan = plan_commands(&sub).unwrap();
    assert_eq!(plan.len(), 3);
    assert_eq!(plan[0].to_command_line(), "mkdir -p converted/bla");
    assert_eq!(
        plan[1].to_command_line(),
        "convert bla/one.png -background black -alpha remove -sampling-factor 4:2:0 -quality 85 converted/bla/one.jpg"
    );
    assert_eq!(
        plan[2].to_command_line(),
        "convert bla/two.png -background black -alpha remove -sampling-factor 4:2:0 -quality 85 converted/bla/two.jpg"
    );
}

#[test]
fn photo_flags_add_strip_and_resize() {
    let sub = SubCommand::Photo {
        strip: true,
        resize: true,
        resize_size: "2000x1000>".to_string(),
        input_files: strings(&["img.png"]),
    };
    let plan = plan_commands(&sub).unwrap();
    assert_eq!(plan.len(), 2);
    assert_eq!(plan[0].to_command_line(), "mkdir -p converted");
    assert_eq!(
        plan[1].to_command_line(),
        "convert img.png -background black -alpha remove -sampling-factor 4:2:0 -strip -resize 2000x1000> -quality 85 converted/img.jpg"
    );
}

#[test]
fn screenshot_recipe() {
    let sub = SubCommand::Screenshot {
        strip: true,
        pedantic: true,
        input_files: strings(&["shot.png"]),
    };
    let plan = plan_commands(&sub).unwrap();
    assert_eq!(plan.len(), 2);
    assert_eq!(plan[0].to_command_line(), "mkdir -p converted");
    assert_eq!(
        plan[1].to_command_line(),
        "oxipng -Z --strip safe shot.png --out converted/shot.png"
    );
}

#[test]
fn screenshot_recipe_without_flags() {
    let sub = SubCommand::Screenshot {
        strip: false,
        pedantic: false,
        input_files: strings(&["shot.png"]),
    };
    let plan = plan_commands(&sub).unwrap();
    assert_eq!(plan[1].to_command_line(), "oxipng shot.png --out converted/shot.png");
}

#[test]
fn sound_recipe() {
    let sub = SubCommand::Sound { input_files: strings(&["talk.wav"]) };
    let plan = plan_commands(&sub).unwrap();
    assert_eq!(plan.len(), 2);
    assert_eq!(
        plan[1].to_command_line(),
        "ffmpeg -v error -stats -vn -i talk.wav converted/talk.mp3"
    );
}

#[test]
fn opus_recipe() {
    let sub = SubCommand::Opus { input_files: strings(&["talk.wav"]) };
    let plan = plan_commands(&sub).unwrap();
    assert_eq!(
        plan[1].to_command_line(),
        "ffmpeg -v error -stats -vn -i talk.wav -c:a libopus converted/talk.ogg"
    );
}

#[test]
fn video_recipe() {
    let sub = SubCommand::Video { input_files: strings(&["clip.avi"]) };
    let plan = plan_commands(&sub).unwrap();
    assert_eq!(plan[1].to_command_line(), "ffmpeg -v error -stats -i clip.avi converted/clip.mp4");
}

#[test]
fn gifish_recipe() {
    let sub = SubCommand::Gifish { input_files: strings(&["anim.gif"]) };
    let plan = plan_commands(&sub).unwrap();
    assert_eq!(
        plan[1].to_command_line(),
        "ffmpeg -v error -stats -an -i anim.gif converted/anim.mp4"
    );
}

#[test]
fn distinct_folders_get_distinct_mkdirs_first() {
    let sub = SubCommand::Sound { input_files: strings(&["a/x.wav", "b/y.wav", "a/z.wav"]) };
    let plan = plan_commands(&sub).unwrap();
    assert_eq!(plan.len(), 5);
    assert_eq!(plan[0].to_command_line(), "mkdir -p converted/a");
    assert_eq!(plan[1].to_command_line(), "mkdir -p converted/b");
    assert_eq!(plan[2].to_command_line(), "ffmpeg -v error -stats -vn -i a/x.wav converted/a/x.mp3");
    assert_eq!(plan[3].to_command_line(), "ffmpeg -v error -stats -vn -i b/y.wav converted/b/y.mp3");
    assert_eq!(plan[4].to_command_line(), "ffmpeg -v error -stats -vn -i a/z.wav converted/a/z.mp3");
}

#[test]
fn plan_reports_first_underivable_output() {
    let sub = SubCommand::Video { input_files: strings(&["fine.avi", "broken/"]) };
    assert_eq!(plan_commands(&sub), Err(PlanError::NoOutputPath { index: 1 }));
}

#[test]
fn versions_plans_no_conversions() {
    let plan = plan_commands(&SubCommand::Versions).unwrap();
    assert!(plan.is_empty());
}

#[test]
fn render_plan_prints_one_line_per_command() {
    let sub = SubCommand::Sound { input_files: strings(&["a/x.wav", "a/y.wav"]) };
    let plan = plan_commands(&sub).unwrap();
    let lines = render_plan(&plan);
    assert_eq!(lines.len(), plan.len());
    for (line, command) in lines.iter().zip(plan.iter()) {
        assert_eq!(line, &command.to_command_line());
    }
}

#[test]
fn target_extensions_per_subcommand() {
    assert_eq!(target_ext(&SubCommand::Photo {
        strip: false,
        resize: false,
        resize_size: String::new(),
        input_files: Vec::new(),
    }), "jpg");
    assert_eq!(target_ext(&SubCommand::Screenshot {
        strip: false,
        pedantic: false,
        input_files: Vec::new(),
    }), "png");
    assert_eq!(target_ext(&SubCommand::Sound { input_files: Vec::new() }), "mp3");
    assert_eq!(target_ext(&SubCommand::Opus { input_files: Vec::new() }), "ogg");
    assert_eq!(target_ext(&SubCommand::Video { input_files: Vec::new() }), "mp4");
    assert_eq!(target_ext(&SubCommand::Gifish { input_files: Vec::new() }), "mp4");
}

#[test]
fn conversion_command_interpolates_paths() {
    let sub = SubCommand::Sound { input_files: Vec::new() };
    let command = conversion_command_for(&sub, "in dir/a.wav", "converted/in dir/a.mp3");
    assert_eq!(
        command.to_command_line(),
        "ffmpeg -v error -stats -vn -i \"in dir/a.wav\" \"converted/in dir/a.mp3\""
    );
}

#[test]
fn create_and_add_output_mkdir_dedups() {
    let mut commands = Vec::new();
    media_convert::create_and_add_output_mkdir(&mut commands, "converted/bla/foo.txt");
    media_convert::create_and_add_output_mkdir(&mut commands, "converted/bla/bar.txt");
    assert_eq!(commands.len(), 1);
    assert_eq!(commands[0].to_command_line(), "mkdir -p converted/bla");
    media_convert::create_and_add_output_mkdir(&mut commands, "converted/other/baz.txt");
    assert_eq!(commands.len(), 2);
    assert_eq!(commands[1].to_command_line(), "mkdir -p converted/other");
}

#[test]
fn version_check_commands_cover_all_tools() {
    let commands = version_check_commands();
    let lines: Vec<String> = commands.iter().map(|c| c.to_command_line()).collect();
    assert_eq!(
        lines,
        vec![
            "convert --version".to_string(),
            "ffmpeg -version".to_string(),
            "mkdir --version".to_string(),
            "oxipng --version".to_string(),
        ]
    );
}
