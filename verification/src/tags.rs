//! The four-character keys of the format's dictionary: each record's key
//! is either one of the known tags below or is preserved verbatim as an
//! unrecognized key. Decoding a key never fails the parse.

use vstd::prelude::*;

verus! {

/// The four-character key of a record.
///
/// Unknown keys are not errors: they are preserved as [`Tag::Other`] with
/// their raw text, so forward-compatible data still decodes.
#[derive(Clone, Debug, PartialEq)]
pub enum Tag {
    /// Device: unique device source for metadata; each connected device starts its own nested stream.
    DEVC,
    /// Device ID: auto generated unique identifier for managing connected devices.
    DVID,
    /// Device Name: display name of the device, informative for the user.
    DVNM,
    /// Stream: nested signal stream of metadata or telemetry.
    STRM,
    /// Stream Name: display name for a stream, informative for the user.
    STNM,
    /// Stream Comment: human readable information about the stream.
    RMRK,
    /// Scale Factor: divisor that scales sensor data to its units.
    SCAL,
    /// SI Unit: the stream's data can be formatted in standard units.
    SIUN,
    /// Display Unit: units that communicate better than standard ones.
    UNIT,
    /// Type template: describes the data packed within each sample of a complex structure.
    TYPE,
    /// Total Samples: count of all samples delivered since record start.
    TSMP,
    /// Time Offset: the data is delayed by the given number of seconds.
    TIMO,
    /// Empty payload count: number of payloads that contain no new data.
    EMPT,
    /// Start Timestamp.
    TICK,
    /// End Timestamp.
    TOCK,
    /// Temperature: thermal clock drift for temperature sensitive calibrations.
    TMPC,
    /// Accelerometer: three axes of acceleration.
    ACCL,
    /// Gyroscope: three axes of rotation.
    GYRO,
    /// Image Sensor Gain.
    ISOG,
    /// Exposure Time.
    SHUT,
    /// GPS: latitude, longitude, altitude, 2D ground speed and 3D speed.
    GPS5,
    /// GPS UTC: time and date from the GPS receiver.
    GPSU,
    /// GPS Fix: 0 no lock, 2 or 3 for a 2D or 3D lock.
    GPSF,
    /// GPS Precision: dilution of precision, times 100.
    GPSP,
    /// Magnetometer: camera pointing direction.
    MAGN,
    /// Microsecond Timestamps.
    STMP,
    /// Face detection bounding boxes.
    FACE,
    /// Faces counted per frame.
    FCNM,
    /// Sensor ISO: replaces the image sensor gain field.
    ISOE,
    /// Auto Low Light frame Duration.
    ALLD,
    /// White Balance in Kelvin.
    WBAL,
    /// White Balance RGB gains.
    WRGB,
    /// Luma average over the frame.
    YAVG,
    /// Predominant hues over the frame.
    HUES,
    /// Image uniformity.
    UNIF,
    /// Scene classifier in probabilities.
    SCEN,
    /// Sensor Read Out Time.
    SROT,
    /// Camera Orientation: quaternions since capture start.
    CORI,
    /// Image Orientation: quaternions relative to the camera body.
    IORI,
    /// Gravity Vector: direction of gravity.
    GRAV,
    /// Wind Processing: whether wind processing is active.
    WNDM,
    /// Microphone is Wet: whether some microphones are wet.
    MWET,
    /// Audio Levels: RMS and peak audio levels in dBFS.
    AALP,
    /// Depth Map: one-dimensional depth map for the objects seen by two lenses.
    DISP,
    /// Main video frame skip.
    MSKP,
    /// Low resolution video frame skip.
    LSKP,
    /// GPS: position, speeds, time, precision and fix in one record.
    GPS9,
    /// HiLight tags: millisecond values of in-camera highlight marks.
    HMMT,
    /// Battery Status.
    KBAT,
    /// Any other key, preserved as its raw four characters of text.
    Other(String),
}

/// The abstract form of a key: the same dictionary, with an unrecognized
/// key abstracted to its text.
pub enum TagV {
    /// Device: unique device source for metadata; each connected device starts its own nested stream.
    DEVC,
    /// Device ID: auto generated unique identifier for managing connected devices.
    DVID,
    /// Device Name: display name of the device, informative for the user.
    DVNM,
    /// Stream: nested signal stream of metadata or telemetry.
    STRM,
    /// Stream Name: display name for a stream, informative for the user.
    STNM,
    /// Stream Comment: human readable information about the stream.
    RMRK,
    /// Scale Factor: divisor that scales sensor data to its units.
    SCAL,
    /// SI Unit: the stream's data can be formatted in standard units.
    SIUN,
    /// Display Unit: units that communicate better than standard ones.
    UNIT,
    /// Type template: describes the data packed within each sample of a complex structure.
    TYPE,
    /// Total Samples: count of all samples delivered since record start.
    TSMP,
    /// Time Offset: the data is delayed by the given number of seconds.
    TIMO,
    /// Empty payload count: number of payloads that contain no new data.
    EMPT,
    /// Start Timestamp.
    TICK,
    /// End Timestamp.
    TOCK,
    /// Temperature: thermal clock drift for temperature sensitive calibrations.
    TMPC,
    /// Accelerometer: three axes of acceleration.
    ACCL,
    /// Gyroscope: three axes of rotation.
    GYRO,
    /// Image Sensor Gain.
    ISOG,
    /// Exposure Time.
    SHUT,
    /// GPS: latitude, longitude, altitude, 2D ground speed and 3D speed.
    GPS5,
    /// GPS UTC: time and date from the GPS receiver.
    GPSU,
    /// GPS Fix: 0 no lock, 2 or 3 for a 2D or 3D lock.
    GPSF,
    /// GPS Precision: dilution of precision, times 100.
    GPSP,
    /// Magnetometer: camera pointing direction.
    MAGN,
    /// Microsecond Timestamps.
    STMP,
    /// Face detection bounding boxes.
    FACE,
    /// Faces counted per frame.
    FCNM,
    /// Sensor ISO: replaces the image sensor gain field.
    ISOE,
    /// Auto Low Light frame Duration.
    ALLD,
    /// White Balance in Kelvin.
    WBAL,
    /// White Balance RGB gains.
    WRGB,
    /// Luma average over the frame.
    YAVG,
    /// Predominant hues over the frame.
    HUES,
    /// Image uniformity.
    UNIF,
    /// Scene classifier in probabilities.
    SCEN,
    /// Sensor Read Out Time.
    SROT,
    /// Camera Orientation: quaternions since capture start.
    CORI,
    /// Image Orientation: quaternions relative to the camera body.
    IORI,
    /// Gravity Vector: direction of gravity.
    GRAV,
    /// Wind Processing: whether wind processing is active.
    WNDM,
    /// Microphone is Wet: whether some microphones are wet.
    MWET,
    /// Audio Levels: RMS and peak audio levels in dBFS.
    AALP,
    /// Depth Map: one-dimensional depth map for the objects seen by two lenses.
    DISP,
    /// Main video frame skip.
    MSKP,
    /// Low resolution video frame skip.
    LSKP,
    /// GPS: position, speeds, time, precision and fix in one record.
    GPS9,
    /// HiLight tags: millisecond values of in-camera highlight marks.
    HMMT,
    /// Battery Status.
    KBAT,
    /// Any other key, as its raw four characters of text.
    Other(Seq<char>),
}

impl View for Tag {
    type V = TagV;

    open spec fn view(&self) -> TagV {
        match self {
            Tag::DEVC => TagV::DEVC,
            Tag::DVID => TagV::DVID,
            Tag::DVNM => TagV::DVNM,
            Tag::STRM => TagV::STRM,
            Tag::STNM => TagV::STNM,
            Tag::RMRK => TagV::RMRK,
            Tag::SCAL => TagV::SCAL,
            Tag::SIUN => TagV::SIUN,
            Tag::UNIT => TagV::UNIT,
            Tag::TYPE => TagV::TYPE,
            Tag::TSMP => TagV::TSMP,
            Tag::TIMO => TagV::TIMO,
            Tag::EMPT => TagV::EMPT,
            Tag::TICK => TagV::TICK,
            Tag::TOCK => TagV::TOCK,
            Tag::TMPC => TagV::TMPC,
            Tag::ACCL => TagV::ACCL,
            Tag::GYRO => TagV::GYRO,
            Tag::ISOG => TagV::ISOG,
            Tag::SHUT => TagV::SHUT,
            Tag::GPS5 => TagV::GPS5,
            Tag::GPSU => TagV::GPSU,
            Tag::GPSF => TagV::GPSF,
            Tag::GPSP => TagV::GPSP,
            Tag::MAGN => TagV::MAGN,
            Tag::STMP => TagV::STMP,
            Tag::FACE => TagV::FACE,
            Tag::FCNM => TagV::FCNM,
            Tag::ISOE => TagV::ISOE,
            Tag::ALLD => TagV::ALLD,
            Tag::WBAL => TagV::WBAL,
            Tag::WRGB => TagV::WRGB,
            Tag::YAVG => TagV::YAVG,
            Tag::HUES => TagV::HUES,
            Tag::UNIF => TagV::UNIF,
            Tag::SCEN => TagV::SCEN,
            Tag::SROT => TagV::SROT,
            Tag::CORI => TagV::CORI,
            Tag::IORI => TagV::IORI,
            Tag::GRAV => TagV::GRAV,
            Tag::WNDM => TagV::WNDM,
            Tag::MWET => TagV::MWET,
            Tag::AALP => TagV::AALP,
            Tag::DISP => TagV::DISP,
            Tag::MSKP => TagV::MSKP,
            Tag::LSKP => TagV::LSKP,
            Tag::GPS9 => TagV::GPS9,
            Tag::HMMT => TagV::HMMT,
            Tag::KBAT => TagV::KBAT,
            Tag::Other(s) => TagV::Other(s@),
        }
    }
}

/// The key named by four raw bytes: the matching dictionary tag, or the
/// bytes' own text when no tag matches.
pub open spec fn tag_of_bytes(b0: u8, b1: u8, b2: u8, b3: u8) -> TagV {
    if b0 == 68 && b1 == 69 && b2 == 86 && b3 == 67 {
        TagV::DEVC
    } else if b0 == 68 && b1 == 86 && b2 == 73 && b3 == 68 {
        TagV::DVID
    } else if b0 == 68 && b1 == 86 && b2 == 78 && b3 == 77 {
        TagV::DVNM
    } else if b0 == 83 && b1 == 84 && b2 == 82 && b3 == 77 {
        TagV::STRM
    } else if b0 == 83 && b1 == 84 && b2 == 78 && b3 == 77 {
        TagV::STNM
    } else if b0 == 82 && b1 == 77 && b2 == 82 && b3 == 75 {
        TagV::RMRK
    } else if b0 == 83 && b1 == 67 && b2 == 65 && b3 == 76 {
        TagV::SCAL
    } else if b0 == 83 && b1 == 73 && b2 == 85 && b3 == 78 {
        TagV::SIUN
    } else if b0 == 85 && b1 == 78 && b2 == 73 && b3 == 84 {
        TagV::UNIT
    } else if b0 == 84 && b1 == 89 && b2 == 80 && b3 == 69 {
        TagV::TYPE
    } else if b0 == 84 && b1 == 83 && b2 == 77 && b3 == 80 {
        TagV::TSMP
    } else if b0 == 84 && b1 == 73 && b2 == 77 && b3 == 79 {
        TagV::TIMO
    } else if b0 == 69 && b1 == 77 && b2 == 80 && b3 == 84 {
        TagV::EMPT
    } else if b0 == 84 && b1 == 73 && b2 == 67 && b3 == 75 {
        TagV::TICK
    } else if b0 == 84 && b1 == 79 && b2 == 67 && b3 == 75 {
        TagV::TOCK
    } else if b0 == 84 && b1 == 77 && b2 == 80 && b3 == 67 {
        TagV::TMPC
    } else if b0 == 65 && b1 == 67 && b2 == 67 && b3 == 76 {
        TagV::ACCL
    } else if b0 == 71 && b1 == 89 && b2 == 82 && b3 == 79 {
        TagV::GYRO
    } else if b0 == 73 && b1 == 83 && b2 == 79 && b3 == 71 {
        TagV::ISOG
    } else if b0 == 83 && b1 == 72 && b2 == 85 && b3 == 84 {
        TagV::SHUT
    } else if b0 == 71 && b1 == 80 && b2 == 83 && b3 == 53 {
        TagV::GPS5
    } else if b0 == 71 && b1 == 80 && b2 == 83 && b3 == 85 {
        TagV::GPSU
    } else if b0 == 71 && b1 == 80 && b2 == 83 && b3 == 70 {
        TagV::GPSF
    } else if b0 == 71 && b1 == 80 && b2 == 83 && b3 == 80 {
        TagV::GPSP
    } else if b0 == 77 && b1 == 65 && b2 == 71 && b3 == 78 {
        TagV::MAGN
    } else if b0 == 83 && b1 == 84 && b2 == 77 && b3 == 80 {
        TagV::STMP
    } else if b0 == 70 && b1 == 65 && b2 == 67 && b3 == 69 {
        TagV::FACE
    } else if b0 == 70 && b1 == 67 && b2 == 78 && b3 == 77 {
        TagV::FCNM
    } else if b0 == 73 && b1 == 83 && b2 == 79 && b3 == 69 {
        TagV::ISOE
    } else if b0 == 65 && b1 == 76 && b2 == 76 && b3 == 68 {
        TagV::ALLD
    } else if b0 == 87 && b1 == 66 && b2 == 65 && b3 == 76 {
        TagV::WBAL
    } else if b0 == 87 && b1 == 82 && b2 == 71 && b3 == 66 {
        TagV::WRGB
    } else if b0 == 89 && b1 == 65 && b2 == 86 && b3 == 71 {
        TagV::YAVG
    } else if b0 == 72 && b1 == 85 && b2 == 69 && b3 == 83 {
        TagV::HUES
    } else if b0 == 85 && b1 == 78 && b2 == 73 && b3 == 70 {
        TagV::UNIF
    } else if b0 == 83 && b1 == 67 && b2 == 69 && b3 == 78 {
        TagV::SCEN
    } else if b0 == 83 && b1 == 82 && b2 == 79 && b3 == 84 {
        TagV::SROT
    } else if b0 == 67 && b1 == 79 && b2 == 82 && b3 == 73 {
        TagV::CORI
    } else if b0 == 73 && b1 == 79 && b2 == 82 && b3 == 73 {
        TagV::IORI
    } else if b0 == 71 && b1 == 82 && b2 == 65 && b3 == 86 {
        TagV::GRAV
    } else if b0 == 87 && b1 == 78 && b2 == 68 && b3 == 77 {
        TagV::WNDM
    } else if b0 == 77 && b1 == 87 && b2 == 69 && b3 == 84 {
        TagV::MWET
    } else if b0 == 65 && b1 == 65 && b2 == 76 && b3 == 80 {
        TagV::AALP
    } else if b0 == 68 && b1 == 73 && b2 == 83 && b3 == 80 {
        TagV::DISP
    } else if b0 == 77 && b1 == 83 && b2 == 75 && b3 == 80 {
        TagV::MSKP
    } else if b0 == 76 && b1 == 83 && b2 == 75 && b3 == 80 {
        TagV::LSKP
    } else if b0 == 71 && b1 == 80 && b2 == 83 && b3 == 57 {
        TagV::GPS9
    } else if b0 == 72 && b1 == 77 && b2 == 77 && b3 == 84 {
        TagV::HMMT
    } else if b0 == 75 && b1 == 66 && b2 == 65 && b3 == 84 {
        TagV::KBAT
    } else {
        TagV::Other(seq![b0 as char, b1 as char, b2 as char, b3 as char])
    }
}

impl Tag {
    /// Resolve four raw key bytes to their tag, preserving unrecognized
    /// keys as their own text.
    pub fn from_bytes(b0: u8, b1: u8, b2: u8, b3: u8) -> (t: Tag)
        ensures
            t@ == tag_of_bytes(b0, b1, b2, b3),
    {
        match (b0, b1, b2, b3) {
            (68u8, 69u8, 86u8, 67u8) => Tag::DEVC,
            (68u8, 86u8, 73u8, 68u8) => Tag::DVID,
            (68u8, 86u8, 78u8, 77u8) => Tag::DVNM,
            (83u8, 84u8, 82u8, 77u8) => Tag::STRM,
            (83u8, 84u8, 78u8, 77u8) => Tag::STNM,
            (82u8, 77u8, 82u8, 75u8) => Tag::RMRK,
            (83u8, 67u8, 65u8, 76u8) => Tag::SCAL,
            (83u8, 73u8, 85u8, 78u8) => Tag::SIUN,
            (85u8, 78u8, 73u8, 84u8) => Tag::UNIT,
            (84u8, 89u8, 80u8, 69u8) => Tag::TYPE,
            (84u8, 83u8, 77u8, 80u8) => Tag::TSMP,
            (84u8, 73u8, 77u8, 79u8) => Tag::TIMO,
            (69u8, 77u8, 80u8, 84u8) => Tag::EMPT,
            (84u8, 73u8, 67u8, 75u8) => Tag::TICK,
            (84u8, 79u8, 67u8, 75u8) => Tag::TOCK,
            (84u8, 77u8, 80u8, 67u8) => Tag::TMPC,
            (65u8, 67u8, 67u8, 76u8) => Tag::ACCL,
            (71u8, 89u8, 82u8, 79u8) => Tag::GYRO,
            (73u8, 83u8, 79u8, 71u8) => Tag::ISOG,
            (83u8, 72u8, 85u8, 84u8) => Tag::SHUT,
            (71u8, 80u8, 83u8, 53u8) => Tag::GPS5,
            (71u8, 80u8, 83u8, 85u8) => Tag::GPSU,
            (71u8, 80u8, 83u8, 70u8) => Tag::GPSF,
            (71u8, 80u8, 83u8, 80u8) => Tag::GPSP,
            (77u8, 65u8, 71u8, 78u8) => Tag::MAGN,
            (83u8, 84u8, 77u8, 80u8) => Tag::STMP,
            (70u8, 65u8, 67u8, 69u8) => Tag::FACE,
            (70u8, 67u8, 78u8, 77u8) => Tag::FCNM,
            (73u8, 83u8, 79u8, 69u8) => Tag::ISOE,
            (65u8, 76u8, 76u8, 68u8) => Tag::ALLD,
            (87u8, 66u8, 65u8, 76u8) => Tag::WBAL,
            (87u8, 82u8, 71u8, 66u8) => Tag::WRGB,
            (89u8, 65u8, 86u8, 71u8) => Tag::YAVG,
            (72u8, 85u8, 69u8, 83u8) => Tag::HUES,
            (85u8, 78u8, 73u8, 70u8) => Tag::UNIF,
            (83u8, 67u8, 69u8, 78u8) => Tag::SCEN,
            (83u8, 82u8, 79u8, 84u8) => Tag::SROT,
            (67u8, 79u8, 82u8, 73u8) => Tag::CORI,
            (73u8, 79u8, 82u8, 73u8) => Tag::IORI,
            (71u8, 82u8, 65u8, 86u8) => Tag::GRAV,
            (87u8, 78u8, 68u8, 77u8) => Tag::WNDM,
            (77u8, 87u8, 69u8, 84u8) => Tag::MWET,
            (65u8, 65u8, 76u8, 80u8) => Tag::AALP,
            (68u8, 73u8, 83u8, 80u8) => Tag::DISP,
            (77u8, 83u8, 75u8, 80u8) => Tag::MSKP,
            (76u8, 83u8, 75u8, 80u8) => Tag::LSKP,
            (71u8, 80u8, 83u8, 57u8) => Tag::GPS9,
            (72u8, 77u8, 77u8, 84u8) => Tag::HMMT,
            (75u8, 66u8, 65u8, 84u8) => Tag::KBAT,
            _ => {
                let mut s = String::new();
                crate::wire::push_char(&mut s, b0 as char);
                crate::wire::push_char(&mut s, b1 as char);
                crate::wire::push_char(&mut s, b2 as char);
                crate::wire::push_char(&mut s, b3 as char);
                proof {
                    assert(s@ =~= seq![b0 as char, b1 as char, b2 as char, b3 as char]);
                }
                Tag::Other(s)
            },
        }
    }

    /// Whether this key marks a type-template record, the one key whose
    /// character payload declares the layout of later complex records.
    pub fn is_template_marker(&self) -> (r: bool)
        ensures
            r == (self@ is TYPE),
    {
        match self {
            Tag::TYPE => true,
            _ => false,
        }
    }
}

} // verus!
