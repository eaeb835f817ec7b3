use s_rack::engine::{AudioEngine, SRackApp};
use s_rack::synth::output::OutputModule;
use s_rack::synth::{AudioBuffer, AudioConfig};
use s_rack::ui::SynthModuleWorkspace;

fn block(samples: &[u32]) -> AudioBuffer {
    let mut buffer = AudioBuffer::new(None);
    buffer.put(Some(samples.to_vec()));
    buffer
}

#[test]
fn the_engine_interleaves_the_channels() {
    let ac = AudioConfig { sample_rate: 48000, buffer_size: 3, channels: 2 };
    let mut output = OutputModule::new(&ac);
    let mut engine = AudioEngine::new(&ac);
    let mut played = vec![];
    let mut loads = vec![];
    let mut next = 10;
    // a device buffer of five frames, then one of four
    for len in [10, 8] {
        for out_idx in 0..len {
            if engine.wants_block(out_idx) {
                loads.push(played.len());
                output.calc(&vec![
                    block(&[next, next + 1, next + 2]),
                    block(&[next + 100, next + 101, next + 102]),
                ]);
                next += 3;
                engine.load(&output);
            }
            played.push(engine.next_sample(out_idx));
        }
    }
    assert_eq!(
        played,
        vec![10, 110, 11, 111, 12, 112, 13, 113, 14, 114, 15, 115, 16, 116, 17, 117, 18, 118]
    );
    assert_eq!(loads, vec![0, 6, 12]);
}

#[test]
fn a_fresh_engine_plays_silence() {
    let ac = AudioConfig { sample_rate: 48000, buffer_size: 2, channels: 3 };
    let mut engine = AudioEngine::new(&ac);
    assert!(engine.wants_block(0));
    assert!(engine.wants_block(3));
    assert!(!engine.wants_block(1));
    let played: Vec<u32> = (0..6).map(|out_idx| engine.next_sample(out_idx)).collect();
    assert_eq!(played, vec![0; 6]);
    // the cursor is back at the start of the block
    assert!(engine.wants_block(0));
    assert_eq!(engine.next_sample(0), 0);
    assert_eq!(engine.next_sample(1), 0);
    // the frame is not over yet
    assert!(engine.wants_block(3));
    assert_eq!(engine.next_sample(2), 0);
    assert!(!engine.wants_block(3));
}

#[test]
fn channels_that_the_output_lacks_are_silent() {
    let wide = AudioConfig { sample_rate: 48000, buffer_size: 2, channels: 2 };
    let narrow = AudioConfig { sample_rate: 48000, buffer_size: 1, channels: 1 };
    let mut output = OutputModule::new(&narrow);
    output.calc(&vec![block(&[7])]);
    let mut engine = AudioEngine::new(&wide);
    engine.load(&output);
    let played: Vec<u32> = (0..4).map(|out_idx| engine.next_sample(out_idx)).collect();
    assert_eq!(played, vec![7, 0, 0, 0]);
}

#[test]
fn the_program_starts_without_an_engine() {
    let app = SRackApp::new(SynthModuleWorkspace::new(), false, 1024);
    assert_eq!(
        app.audio_config,
        AudioConfig { sample_rate: 48000, buffer_size: 1024, channels: 2 }
    );
    assert!(app.audio_engine.is_none());
    assert!(!app.web);
    assert!(app.should_start(false));
    let mut web = SRackApp::new(SynthModuleWorkspace::new(), true, 4096);
    assert_eq!(web.audio_config.buffer_size, 4096);
    assert!(web.web);
    assert!(!web.should_start(false));
    assert!(web.should_start(true));
    web.audio_engine = Some(AudioEngine::new(&web.audio_config));
    assert!(!web.should_start(true));
}
