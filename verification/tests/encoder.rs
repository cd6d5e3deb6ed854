use remove_bars::encoder::{
    amf_quality, encode_arguments, ensure_encoder, lists_word, nvenc_preset, video_encoder_args,
    VideoEncoder,
};

#[test]
fn nvenc_preset_presets_are_mapped_monotonically() {
    assert_eq!(nvenc_preset("ultrafast"), "p1");
    assert_eq!(nvenc_preset("veryfast"), "p3");
    assert_eq!(nvenc_preset("medium"), "p4");
    assert_eq!(nvenc_preset("slow"), "p5");
    assert_eq!(nvenc_preset("veryslow"), "p7");
}

#[test]
fn nvenc_preset_passes_through_unknown_names() {
    assert_eq!(nvenc_preset("p2"), "p2");
    assert_eq!(nvenc_preset("llhq"), "llhq");
}

#[test]
fn amf_quality_presets_are_mapped() {
    assert_eq!(amf_quality("ultrafast"), "speed");
    assert_eq!(amf_quality("fast"), "speed");
    assert_eq!(amf_quality("medium"), "balanced");
    assert_eq!(amf_quality("slow"), "quality");
    assert_eq!(amf_quality("veryslow"), "quality");
}

#[test]
fn encoder_args_for_x264() {
    assert_eq!(
        video_encoder_args(VideoEncoder::X264, 18, "medium"),
        vec![
            "-c:v".to_string(),
            "libx264".to_string(),
            "-crf".to_string(),
            "18".to_string(),
            "-preset".to_string(),
            "medium".to_string(),
        ]
    );
}

#[test]
fn encoder_args_for_nvenc() {
    assert_eq!(
        video_encoder_args(VideoEncoder::Nvenc, 18, "medium"),
        vec![
            "-c:v".to_string(),
            "h264_nvenc".to_string(),
            "-rc".to_string(),
            "vbr".to_string(),
            "-cq".to_string(),
            "18".to_string(),
            "-b:v".to_string(),
            "0".to_string(),
            "-preset".to_string(),
            "p4".to_string(),
        ]
    );
}

#[test]
fn encoder_args_for_qsv() {
    assert_eq!(
        video_encoder_args(VideoEncoder::Qsv, 20, "slow"),
        vec![
            "-c:v".to_string(),
            "h264_qsv".to_string(),
            "-global_quality".to_string(),
            "20".to_string(),
            "-preset".to_string(),
            "slow".to_string(),
        ]
    );
}

#[test]
fn encoder_args_for_amf() {
    assert_eq!(
        video_encoder_args(VideoEncoder::Amf, 22, "veryslow"),
        vec![
            "-c:v".to_string(),
            "h264_amf".to_string(),
            "-rc".to_string(),
            "cqp".to_string(),
            "-qp_i".to_string(),
            "22".to_string(),
            "-qp_p".to_string(),
            "22".to_string(),
            "-quality".to_string(),
            "quality".to_string(),
        ]
    );
}

#[test]
fn encoder_codec_names_match_value_names() {
    assert_eq!(VideoEncoder::X264.codec_name(), "libx264");
    assert_eq!(VideoEncoder::Nvenc.codec_name(), "h264_nvenc");
    assert_eq!(VideoEncoder::Amf.codec_name(), "h264_amf");
    assert_eq!(VideoEncoder::Qsv.codec_name(), "h264_qsv");
}

#[test]
fn nvenc_presets_rise_with_the_effort() {
    let presets = [
        "ultrafast", "superfast", "veryfast", "faster", "fast", "medium", "slow", "slower",
        "veryslow",
    ];
    let names: Vec<String> = presets.iter().map(|preset| nvenc_preset(preset)).collect();
    assert_eq!(names, vec!["p1", "p2", "p3", "p3", "p3", "p4", "p5", "p6", "p7"]);
    for name in names {
        assert_eq!(nvenc_preset(&name), name);
    }
}

#[test]
fn amf_quality_takes_other_names_for_quality() {
    assert_eq!(amf_quality("superfast"), "speed");
    assert_eq!(amf_quality("Medium"), "quality");
    assert_eq!(amf_quality(""), "quality");
}

#[test]
fn words_are_set_off_by_white_space() {
    let list = " V....D libx264 x264 encoder\n V....D h264_nvenc\tNVENC\r\n";
    assert!(lists_word(list, "libx264"));
    assert!(lists_word(list, "h264_nvenc"));
    assert!(lists_word(list, "NVENC"));
    assert!(!lists_word(list, "h264"));
    assert!(!lists_word(list, "libx264 x264"));
    assert!(!lists_word(list, ""));
    assert!(lists_word("a\u{2003}b", "b"));
    assert!(!lists_word("", "a"));
}

#[test]
fn listed_encoders_are_accepted() {
    assert_eq!(ensure_encoder(" V..... h264_qsv  Intel", VideoEncoder::Qsv), Ok(()));
    assert_eq!(ensure_encoder("libx264", VideoEncoder::X264), Ok(()));
}

#[test]
fn missing_encoders_are_named() {
    assert_eq!(
        ensure_encoder(" V..... libx264rgb\n V..... h264_nvenc", VideoEncoder::X264),
        Err(
            "Encoder libx264 is not available in this ffmpeg build; use '-e x264' or install an ffmpeg build with libx264 support"
                .to_string()
        )
    );
    assert!(ensure_encoder("", VideoEncoder::Amf).is_err());
}

#[test]
fn encode_keeps_all_streams_and_filters_video_alone() {
    assert_eq!(
        encode_arguments("crop=1920:800:0:140", VideoEncoder::X264, 18, "slow"),
        vec![
            "-vf", "crop=1920:800:0:140", "-map", "0", "-c:v", "libx264", "-crf", "18", "-preset",
            "slow", "-c:a", "copy", "-c:s", "copy",
        ]
    );
}
