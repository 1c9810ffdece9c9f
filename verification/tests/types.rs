use szse_binary_rs::{ExecType, OrdType, ParseError, Side};

#[test]
fn side_round_trips() {
    assert_eq!(Side::from_byte(b'1'), Ok(Side::Buy));
    assert_eq!(Side::from_byte(b'F'), Ok(Side::Lend));
    assert_eq!(
        Side::from_byte(b'Z'),
        Err(ParseError::InvalidEnum {
            field: "Side",
            value: b'Z'
        })
    );
}

#[test]
fn exec_type_rejects_unknown() {
    assert_eq!(ExecType::from_byte(b'F'), Ok(ExecType::Trade));
    assert!(ExecType::from_byte(b'0').is_err());
}

#[test]
fn every_byte_decodes_only_to_its_code() {
    for b in 0u8..=255 {
        let side = match b {
            b'1' => Some(Side::Buy),
            b'2' => Some(Side::Sell),
            b'G' => Some(Side::Borrow),
            b'F' => Some(Side::Lend),
            _ => None,
        };
        match side {
            Some(s) => assert_eq!(Side::from_byte(b), Ok(s)),
            None => assert_eq!(
                Side::from_byte(b),
                Err(ParseError::InvalidEnum { field: "Side", value: b })
            ),
        }
        let exec = match b {
            b'4' => Some(ExecType::Cancelled),
            b'F' => Some(ExecType::Trade),
            _ => None,
        };
        match exec {
            Some(e) => assert_eq!(ExecType::from_byte(b), Ok(e)),
            None => assert_eq!(
                ExecType::from_byte(b),
                Err(ParseError::InvalidEnum { field: "ExecType", value: b })
            ),
        }
        let ord = match b {
            b'1' => Some(OrdType::Market),
            b'2' => Some(OrdType::Limit),
            b'U' => Some(OrdType::BestOwn),
            _ => None,
        };
        match ord {
            Some(o) => assert_eq!(OrdType::from_byte(b), Ok(o)),
            None => assert_eq!(
                OrdType::from_byte(b),
                Err(ParseError::InvalidEnum { field: "OrdType", value: b })
            ),
        }
    }
}
