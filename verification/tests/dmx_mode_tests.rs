use gdtf_parser::dmx_channel::{DmxBreak, DmxChannel, Offset};
use gdtf_parser::dmx_mode::DmxMode;
use gdtf_parser::name::Name;

#[test]
fn test_normal() {
    let expected = DmxMode {
        geometry: Name::new("Base").unwrap(),
        dmx_channels: vec![
            DmxChannel {
                dmx_break: DmxBreak::Overwrite,
                offset: Some(Offset(vec![1, 2])),
                initial_function: Default::default(),
                highlight: None,
                geometry: "Yoke".try_into().unwrap(),
                logical_channels: vec![],
            },
            DmxChannel {
                dmx_break: DmxBreak::Value(1),
                offset: Some(Offset(vec![3, 4])),
                initial_function: Default::default(),
                highlight: None,
                geometry: "Head".try_into().unwrap(),
                logical_channels: vec![],
            },
        ],
    };
    let (mode, key) = DmxMode::from_xml(
        r#"
      <DMXMode Geometry="Base" Name="Mode 1 12 DMX">
        <DMXChannels>
          <DMXChannel DMXBreak="Overwrite" Default="32768/2" Geometry="Yoke" Highlight="None" Offset="1,2">
          </DMXChannel>
          <DMXChannel DMXBreak="1" Default="32767/2" Geometry="Head" Highlight="None" Offset="3,4">
          </DMXChannel>
        </DMXChannels>
       </DMXMode>
            "#,
    )
    .unwrap();
    assert_eq!(Name::new("Mode 1 12 DMX").unwrap(), key);
    assert_eq!(expected, mode);
}
